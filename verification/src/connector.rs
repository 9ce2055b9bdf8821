//! Connector records and the parameter merge engine.
//!
//! A connector record is a named, reusable definition of an external system
//! binding: a kind discriminator, a base parameter table, and the exact set
//! of keys a caller may override.  The merge engine folds a caller's override
//! table into the base table, all or nothing: the first disallowed or
//! nested-table key aborts the merge.

use crate::errors::ConfError;
use crate::params::{table_set, ParamTable, TableModel};
use crate::strutil;
use vstd::prelude::*;
use vstd::string::StringExecFns;

verus! {

/// A named, reusable connector definition.
#[derive(Debug)]
pub struct ConnectorRecord {
    /// Kind discriminator (for example "file", "tcp", "kafka", "mysql").
    pub kind: String,
    /// The base parameter table.
    pub params: ParamTable,
    /// The key names a caller override may touch; any other key is rejected.
    pub allow_override: Vec<String>,
}

impl ConnectorRecord {
    /// Well-formed: the base table holds no key twice.
    pub open spec fn wf(self) -> bool {
        self.params.wf()
    }

    /// The whitelist as character sequences.
    pub open spec fn whitelist(self) -> Seq<Seq<char>> {
        strutil::views(self.allow_override@)
    }
}

/// Keys that would introduce a nested override table and are rejected
/// structurally, whatever the whitelist says.
pub open spec fn is_structural_key(k: Seq<char>) -> bool {
    k == "params"@ || k == "params_override"@
}

/// Whether the override key `k` passes: not structural, and whitelisted.
pub open spec fn override_key_ok(wl: Seq<Seq<char>>, k: Seq<char>) -> bool {
    !is_structural_key(k) && wl.contains(k)
}

/// The index of the first override key that is rejected, or a negative
/// number when every key passes.
pub open spec fn first_rejected(wl: Seq<Seq<char>>, keys: Seq<Seq<char>>) -> int
    decreases keys.len(),
{
    if keys.len() == 0 {
        -1
    } else if !override_key_ok(wl, keys[0]) {
        0
    } else {
        let r = first_rejected(wl, keys.subrange(1, keys.len() as int));
        if r < 0 {
            -1
        } else {
            r + 1
        }
    }
}

/// What `first_rejected` finds: the first offending key, or none at all.
pub proof fn lemma_first_rejected(wl: Seq<Seq<char>>, keys: Seq<Seq<char>>)
    ensures
        first_rejected(wl, keys) >= 0 ==> {
            &&& first_rejected(wl, keys) < keys.len()
            &&& !override_key_ok(wl, keys[first_rejected(wl, keys)])
            &&& forall|j: int| 0 <= j < first_rejected(wl, keys) ==> override_key_ok(wl, keys[j])
        },
        first_rejected(wl, keys) < 0 ==> forall|j: int|
            0 <= j < keys.len() ==> override_key_ok(wl, keys[j]),
    decreases keys.len(),
{
    if keys.len() > 0 && override_key_ok(wl, keys[0]) {
        let k1 = keys.subrange(1, keys.len() as int);
        lemma_first_rejected(wl, k1);
        assert forall|j: int| 1 <= j < keys.len() implies keys[j] == k1[j - 1] by {}
    }
}

/// How a failed merge reports itself: the first offending override key,
/// rendered as a structural rejection for a nested-table key and as a
/// whitelist violation otherwise, always listing the whitelist.
pub open spec fn merge_rejection(
    e: ConfError,
    wl: Seq<Seq<char>>,
    ov: TableModel,
    cid: Seq<char>,
) -> bool {
    let bad = first_rejected(wl, crate::params::model_keys(ov));
    &&& bad >= 0
    &&& if is_structural_key(ov[bad].0) {
        e matches ConfError::NestedOverride { key, whitelist } && key@ == ov[bad].0
            && strutil::views(whitelist@) == wl
    } else {
        e matches ConfError::WhitelistViolation { key, conn_id, whitelist } && key@ == ov[bad].0
            && conn_id@ == cid && strutil::views(whitelist@) == wl
    }
}

/// The merged table: the base with each override binding applied in order.
pub open spec fn spec_merge(base: TableModel, ov: TableModel) -> TableModel
    decreases ov.len(),
{
    if ov.len() == 0 {
        base
    } else {
        spec_merge(table_set(base, ov[0].0, ov[0].1), ov.subrange(1, ov.len() as int))
    }
}

/// Merges the caller's override table into the record's base parameters
/// under the record's whitelist.
///
/// Validation is all-or-nothing: the first nested-table key fails with a
/// structural error, the first non-whitelisted key with a whitelist
/// violation, and in both cases nothing of the override is applied.  An
/// empty override table succeeds and returns the base parameters unchanged.
pub fn merge_params_with_whitelist(
    conn: &ConnectorRecord,
    override_tbl: &ParamTable,
    conn_id: &str,
) -> (r: Result<ParamTable, ConfError>)
    requires
        conn.wf(),
    ensures
        match r {
            Ok(merged) => {
                &&& first_rejected(
                    conn.whitelist(),
                    crate::params::model_keys(override_tbl.model()),
                ) < 0
                &&& merged.wf()
                &&& merged.model() == spec_merge(conn.params.model(), override_tbl.model())
            },
            Err(e) => merge_rejection(e, conn.whitelist(), override_tbl.model(), conn_id@),
        },
{
    let ghost base0 = conn.params.model();
    let ghost ov = override_tbl.model();
    let ghost ov_keys = crate::params::model_keys(ov);
    let mut merged = conn.params.duplicate();
    let n = override_tbl.len();
    let mut i: usize = 0;
    proof {
        assert(ov.subrange(0, n as int) =~= ov);
        assert forall|x: int, y: int|
            0 <= x < y < merged.keys().len() implies merged.keys()[x] != merged.keys()[y] by {
            assert(conn.params.keys()[x] != conn.params.keys()[y]);
        }
    }
    while i < n
        invariant
            conn.wf(),
            base0 == conn.params.model(),
            ov == override_tbl.model(),
            ov_keys == crate::params::model_keys(ov),
            n == ov.len(),
            i <= n,
            merged.wf(),
            spec_merge(base0, ov) == spec_merge(merged.model(), ov.subrange(i as int, n as int)),
            forall|j: int| 0 <= j < i ==> override_key_ok(conn.whitelist(), ov_keys[j]),
        decreases n - i,
    {
        let key = override_tbl.key_at(i);
        if strutil::str_eq(key.as_str(), "params") || strutil::str_eq(
            key.as_str(),
            "params_override",
        ) {
            proof {
                lemma_first_rejected_is(conn.whitelist(), ov_keys, i as int);
            }
            let mut whitelist: Vec<String> = Vec::new();
            copy_strings(&mut whitelist, &conn.allow_override);
            proof {
                assert(strutil::views(whitelist@) =~= conn.whitelist());
            }
            return Err(ConfError::NestedOverride { key: key.clone(), whitelist });
        }
        if !strutil::contains_str(&conn.allow_override, key.as_str()) {
            proof {
                lemma_first_rejected_is(conn.whitelist(), ov_keys, i as int);
            }
            let mut whitelist: Vec<String> = Vec::new();
            copy_strings(&mut whitelist, &conn.allow_override);
            proof {
                assert(strutil::views(whitelist@) =~= conn.whitelist());
            }
            return Err(
                ConfError::WhitelistViolation {
                    key: key.clone(),
                    conn_id: String::from_str(conn_id),
                    whitelist,
                },
            );
        }
        let ghost merged_before = merged.model();
        let value = override_tbl.value_at(i);
        merged.insert(key.clone(), value.duplicate());
        i += 1;
        proof {
            let rest_before = ov.subrange(i - 1, n as int);
            let rest_after = ov.subrange(i as int, n as int);
            assert(rest_before[0] == ov[i - 1]);
            assert(rest_before.subrange(1, rest_before.len() as int) =~= rest_after);
            assert(spec_merge(merged_before, rest_before) == spec_merge(
                table_set(merged_before, ov[i - 1].0, ov[i - 1].1),
                rest_after,
            ));
        }
    }
    proof {
        assert(ov.subrange(n as int, n as int) =~= Seq::<
            (Seq<char>, crate::params::ValModel),
        >::empty());
        lemma_first_rejected(conn.whitelist(), ov_keys);
        assert(first_rejected(conn.whitelist(), ov_keys) < 0) by {
            if first_rejected(conn.whitelist(), ov_keys) >= 0 {
                assert(override_key_ok(
                    conn.whitelist(),
                    ov_keys[first_rejected(conn.whitelist(), ov_keys)],
                ));
            }
        }
    }
    Ok(merged)
}

/// Any first offending key determines `first_rejected`.
proof fn lemma_first_rejected_is(wl: Seq<Seq<char>>, keys: Seq<Seq<char>>, i: int)
    requires
        0 <= i < keys.len(),
        !override_key_ok(wl, keys[i]),
        forall|j: int| 0 <= j < i ==> override_key_ok(wl, keys[j]),
    ensures
        first_rejected(wl, keys) == i,
    decreases i,
{
    if i > 0 {
        let k1 = keys.subrange(1, keys.len() as int);
        assert(k1[i - 1] == keys[i]);
        assert forall|j: int| 0 <= j < i - 1 implies override_key_ok(wl, k1[j]) by {
            assert(k1[j] == keys[j + 1]);
        }
        lemma_first_rejected_is(wl, k1, i - 1);
    }
}

/// Whitelist closure: when a merge succeeds, every key of the result that is
/// not a key of the base table is in the whitelist.
pub proof fn lemma_whitelist_closure(base: TableModel, ov: TableModel, wl: Seq<Seq<char>>)
    requires
        forall|j: int| 0 <= j < ov.len() ==> override_key_ok(wl, #[trigger] ov[j].0),
    ensures
        forall|k: Seq<char>|
            #[trigger] crate::params::table_has(spec_merge(base, ov), k)
                && !crate::params::table_has(base, k) ==> wl.contains(k),
    decreases ov.len(),
{
    if ov.len() > 0 {
        let b1 = table_set(base, ov[0].0, ov[0].1);
        let ov1 = ov.subrange(1, ov.len() as int);
        assert forall|j: int| 0 <= j < ov1.len() implies override_key_ok(wl, #[trigger] ov1[j].0) by {
            assert(ov1[j] == ov[j + 1]);
        }
        lemma_whitelist_closure(b1, ov1, wl);
        assert forall|k: Seq<char>|
            #[trigger] crate::params::table_has(spec_merge(base, ov), k)
                && !crate::params::table_has(base, k) implies wl.contains(k) by {
            assert(spec_merge(base, ov) == spec_merge(b1, ov1));
            assert(crate::params::table_has(spec_merge(b1, ov1), k));
            if crate::params::table_has(b1, k) {
                crate::params::lemma_table_has_is_key(base, k);
                crate::params::lemma_table_has_is_key(b1, k);
                crate::params::lemma_table_set_keys(base, ov[0].0, ov[0].1);
                if !crate::params::table_has(base, ov[0].0) {
                    let keys1 = crate::params::model_keys(b1);
                    let keys0 = crate::params::model_keys(base);
                    assert(keys1 == keys0.push(ov[0].0));
                    let j = choose|j: int| 0 <= j < keys1.len() && keys1[j] == k;
                    if j < keys0.len() {
                        assert(keys0[j] == k);
                    } else {
                        assert(k == ov[0].0);
                    }
                } else {
                    assert(k == ov[0].0 || crate::params::model_keys(base).contains(k));
                }
            }
        }
    }
}

/// Structural rejection: an override table holding a `params` or
/// `params_override` key never merges, whatever the whitelist holds.
pub proof fn lemma_structural_key_rejects(wl: Seq<Seq<char>>, keys: Seq<Seq<char>>, i: int)
    requires
        0 <= i < keys.len(),
        is_structural_key(keys[i]),
    ensures
        first_rejected(wl, keys) >= 0,
{
    lemma_first_rejected(wl, keys);
    if first_rejected(wl, keys) < 0 {
        assert(override_key_ok(wl, keys[i]));
    }
}

/// An empty override table merges to exactly the base parameters.
pub proof fn lemma_merge_empty_override(base: TableModel)
    ensures
        spec_merge(base, Seq::<(Seq<char>, crate::params::ValModel)>::empty()) == base,
{
}

/// Appends a copy of each string of `src` to `dst`.
fn copy_strings(dst: &mut Vec<String>, src: &Vec<String>)
    ensures
        strutil::views(final(dst)@) == strutil::views(old(dst)@) + strutil::views(src@),
{
    let mut i: usize = 0;
    while i < src.len()
        invariant
            i <= src@.len(),
            dst@.len() == old(dst)@.len() + i,
            forall|j: int| 0 <= j < old(dst)@.len() ==> dst@[j]@ == old(dst)@[j]@,
            forall|j: int| 0 <= j < i ==> dst@[old(dst)@.len() + j]@ == src@[j]@,
        decreases src@.len() - i,
    {
        dst.push(src[i].clone());
        i += 1;
    }
    proof {
        assert(strutil::views(dst@) =~= strutil::views(old(dst)@) + strutil::views(src@));
    }
}

} // verus!
