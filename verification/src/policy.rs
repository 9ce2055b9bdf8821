//! Protocol-specific parameter policy, applied after the base merge.
//!
//! Only stream-oriented ("tcp") connectors carry a policy today: an
//! unthrottled producer should back off under congestion unless the
//! configuration already says otherwise, and an explicitly rate-limited
//! producer should not additionally back off.  Exactly two of the four
//! speed/explicitness combinations act; the other two leave the table
//! untouched, deliberately.

use crate::params::{table_has, table_set, ParamTable, ParamValue, TableModel, ValModel};
use crate::strutil::str_eq;
use vstd::prelude::*;
use vstd::string::StringExecFns;

verus! {

/// The merged table after the backoff policy for connector kind `kind` under
/// generation speed `speed` (0 meaning unlimited):
/// - non-"tcp" kinds: unchanged;
/// - unlimited and no explicit `max_backoff`: `max_backoff = true` is added;
/// - rate-limited and an explicit `max_backoff`: it is forced to `false`;
/// - the other two combinations: unchanged.
pub open spec fn spec_apply_policy(kind: Seq<char>, speed: nat, m: TableModel) -> TableModel {
    if kind != "tcp"@ {
        m
    } else {
        let unlimited = speed == 0;
        let has_explicit = table_has(m, "max_backoff"@);
        if unlimited && !has_explicit {
            table_set(m, "max_backoff"@, ValModel::Bool(true))
        } else if !unlimited && has_explicit {
            table_set(m, "max_backoff"@, ValModel::Bool(false))
        } else {
            m
        }
    }
}

/// Applies the backoff policy to `params` in place.
pub fn apply_policy(kind: &str, speed: usize, params: &mut ParamTable)
    requires
        old(params).wf(),
    ensures
        final(params).wf(),
        final(params).model() == spec_apply_policy(kind@, speed as nat, old(params).model()),
{
    if !str_eq(kind, "tcp") {
        return ;
    }
    let unlimited = speed == 0;
    let has_explicit = params.contains_key("max_backoff");
    if unlimited && !has_explicit {
        params.insert(String::from_str("max_backoff"), ParamValue::Bool(true));
    } else if !unlimited && has_explicit {
        params.insert(String::from_str("max_backoff"), ParamValue::Bool(false));
    }
}

} // verus!
