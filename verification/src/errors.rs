//! Configuration errors.
//!
//! Every error of the resolution pipeline is structural and non-retryable:
//! the caller gets the offending key or identifier together with the data a
//! user needs to correct the configuration (the connector's whitelist, a
//! bounded sample of the known connector ids).  Messages are rendered by
//! [`ConfError::message`], whose text is pinned down character by character.

use crate::strutil;
use vstd::prelude::*;
use vstd::string::StringExecFns;

verus! {

/// A configuration error of the resolution pipeline.
#[derive(Debug)]
pub enum ConfError {
    /// `output.connect` was not set; there is deliberately no implicit
    /// default connector.
    MissingConnectorId,
    /// The requested connector id is not in the resolved mapping.
    /// `known_ids` holds at most eight known ids, sorted, as a diagnostic
    /// aid.
    ConnectorNotFound { conn_id: String, start_root: String, known_ids: Vec<String> },
    /// The override table holds a nested-table key (`params` or
    /// `params_override`).
    NestedOverride { key: String, whitelist: Vec<String> },
    /// The override key is not in the connector's whitelist.
    WhitelistViolation { key: String, conn_id: String, whitelist: Vec<String> },
}

impl ConfError {
    /// The rendered diagnostic text of the error.
    pub open spec fn message_view(self) -> Seq<char> {
        match self {
            ConfError::MissingConnectorId => {
                "wpgen.output.connect must be set (no default fallback)"@
            },
            ConfError::ConnectorNotFound { conn_id, start_root, known_ids } => {
                "wpgen.output.connect='"@ + conn_id@
                    + "' not found: searched 'connectors/sink.d' upward from start='"@
                    + start_root@ + "'; known ids: ["@ + strutil::join_comma(
                    strutil::views(known_ids@),
                ) + "]"@
            },
            ConfError::NestedOverride { key, whitelist } => {
                "invalid nested table '"@ + key@ + "' in output.params; set keys ["@
                    + strutil::join_comma(strutil::views(whitelist@)) + "] directly"@
            },
            ConfError::WhitelistViolation { key, conn_id, whitelist } => {
                "override '"@ + key@ + "' not allowed for connector '"@ + conn_id@
                    + "'; whitelist: ["@ + strutil::join_comma(strutil::views(whitelist@))
                    + "]"@
            },
        }
    }

    /// Renders the diagnostic text.
    pub fn message(&self) -> (r: String)
        ensures
            r@ == self.message_view(),
    {
        let mut s = String::new();
        match self {
            ConfError::MissingConnectorId => {
                s.append("wpgen.output.connect must be set (no default fallback)");
            },
            ConfError::ConnectorNotFound { conn_id, start_root, known_ids } => {
                s.append("wpgen.output.connect='");
                s.append(conn_id.as_str());
                s.append("' not found: searched 'connectors/sink.d' upward from start='");
                s.append(start_root.as_str());
                s.append("'; known ids: [");
                strutil::append_joined(&mut s, known_ids);
                s.append("]");
            },
            ConfError::NestedOverride { key, whitelist } => {
                s.append("invalid nested table '");
                s.append(key.as_str());
                s.append("' in output.params; set keys [");
                strutil::append_joined(&mut s, whitelist);
                s.append("] directly");
            },
            ConfError::WhitelistViolation { key, conn_id, whitelist } => {
                s.append("override '");
                s.append(key.as_str());
                s.append("' not allowed for connector '");
                s.append(conn_id.as_str());
                s.append("'; whitelist: [");
                strutil::append_joined(&mut s, whitelist);
                s.append("]");
            },
        }
        proof {
            assert(s@ =~= self.message_view());
        }
        s
    }
}

} // verus!
