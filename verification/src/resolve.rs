//! The sink resolver.
//!
//! Resolution turns a generator configuration and an externally supplied
//! connector mapping into one fully resolved sink specification: the output
//! name is defaulted, the connector id is required and looked up, the
//! caller's overrides are merged under the connector's whitelist, the
//! protocol policy adjusts the merged table, and a serialization format is
//! chosen.  Failure is always structural; nothing partial is ever returned.
//!
//! Scanning connector definition directories is the caller's business: the
//! resolver receives the already-loaded id-to-record mapping and, for
//! diagnostics only, the directory the caller scanned.

use crate::connector::{
    first_rejected, merge_params_with_whitelist, merge_rejection, spec_merge, ConnectorRecord,
};
use crate::errors::ConfError;
use crate::params::{model_keys, ParamTable, TableModel};
use crate::policy::{apply_policy, spec_apply_policy};
use crate::strutil;
use crate::strutil::{lex_leq, sorted_strings, str_eq};
use crate::textfmt::{select_text_fmt, spec_select_fmt, TextFmt};
use vstd::prelude::*;
use vstd::string::StringExecFns;

verus! {

/// At most this many known connector ids are quoted in a lookup error.
pub const KNOWN_IDS_CAP: usize = 8;

/// The output section of a generator configuration.
#[derive(Debug)]
pub struct OutputConf {
    /// Logical name of the output binding; defaults to "gen_out".
    pub name: Option<String>,
    /// The connector id to resolve; required.
    pub connect: Option<String>,
    /// Caller-supplied parameter overrides.
    pub params: ParamTable,
}

/// The generator section of a generator configuration.
#[derive(Debug)]
pub struct GeneratorConf {
    /// Configured generation speed; 0 means unlimited.
    pub speed: usize,
}

/// The slice of a generator configuration that resolution reads.
#[derive(Debug)]
pub struct WpGenConfig {
    pub output: OutputConf,
    pub generator: GeneratorConf,
}

impl WpGenConfig {
    /// The effective output name.
    pub open spec fn out_name(self) -> Seq<char> {
        match self.output.name {
            Some(n) => n@,
            None => "gen_out"@,
        }
    }
}

/// One id-to-record binding of the connector mapping.
#[derive(Debug)]
pub struct ConnectorEntry {
    pub id: String,
    pub record: ConnectorRecord,
}

/// The connector mapping an external lookup collaborator produced: ids
/// bound to connector records, no id twice.
#[derive(Debug)]
pub struct Connectors {
    pub entries: Vec<ConnectorEntry>,
}

/// The index of the first occurrence of `id`, or a negative number.
pub open spec fn id_index(ids: Seq<Seq<char>>, id: Seq<char>) -> int
    decreases ids.len(),
{
    if ids.len() == 0 {
        -1
    } else if ids[0] == id {
        0
    } else {
        let r = id_index(ids.subrange(1, ids.len() as int), id);
        if r < 0 {
            -1
        } else {
            r + 1
        }
    }
}

/// What `id_index` finds: the first occurrence, or none at all.
pub proof fn lemma_id_index(ids: Seq<Seq<char>>, id: Seq<char>)
    ensures
        id_index(ids, id) >= 0 ==> {
            &&& id_index(ids, id) < ids.len()
            &&& ids[id_index(ids, id)] == id
            &&& forall|j: int| 0 <= j < id_index(ids, id) ==> ids[j] != id
        },
        id_index(ids, id) < 0 ==> forall|j: int| 0 <= j < ids.len() ==> ids[j] != id,
    decreases ids.len(),
{
    if ids.len() > 0 && ids[0] != id {
        let t = ids.subrange(1, ids.len() as int);
        lemma_id_index(t, id);
        assert forall|j: int| 1 <= j < ids.len() implies ids[j] == t[j - 1] by {}
    }
}

/// Any first occurrence determines `id_index`.
pub proof fn lemma_id_index_is_first(ids: Seq<Seq<char>>, id: Seq<char>, i: int)
    requires
        0 <= i < ids.len(),
        ids[i] == id,
        forall|j: int| 0 <= j < i ==> ids[j] != id,
    ensures
        id_index(ids, id) == i,
    decreases i,
{
    if i > 0 {
        let t = ids.subrange(1, ids.len() as int);
        assert(t[i - 1] == ids[i]);
        assert forall|j: int| 0 <= j < i - 1 implies t[j] != id by {
            assert(t[j] == ids[j + 1]);
        }
        lemma_id_index_is_first(t, id, i - 1);
    }
}

impl Connectors {
    /// The ids, in entry order.
    pub open spec fn ids(self) -> Seq<Seq<char>> {
        self.entries@.map_values(|e: ConnectorEntry| e.id@)
    }

    /// Well-formed: ids are pairwise distinct and every record is.
    pub open spec fn wf(self) -> bool {
        &&& forall|i: int, j: int|
            0 <= i < j < self.ids().len() ==> self.ids()[i] != self.ids()[j]
        &&& forall|i: int|
            0 <= i < self.entries@.len() ==> (#[trigger] self.entries@[i].record).wf()
    }

    /// The record bound to `id`, if any.
    pub open spec fn spec_find(self, id: Seq<char>) -> Option<ConnectorRecord> {
        let i = id_index(self.ids(), id);
        if i < 0 {
            None
        } else {
            Some(self.entries@[i].record)
        }
    }

    /// Whether `id` is bound.
    pub open spec fn has_id(self, id: Seq<char>) -> bool {
        self.spec_find(id) is Some
    }

    /// The ids in lexicographic order.
    pub open spec fn sorted_ids(self) -> Seq<Seq<char>> {
        self.ids().sort_by(lex_leq())
    }

    /// The bounded, sorted sample of ids a lookup error quotes.
    pub open spec fn known_sample(self) -> Seq<Seq<char>> {
        if self.ids().len() <= KNOWN_IDS_CAP {
            self.sorted_ids()
        } else {
            self.sorted_ids().take(KNOWN_IDS_CAP as int)
        }
    }

    /// The empty mapping.
    pub fn new() -> (r: Self)
        ensures
            r.wf(),
            r.ids() == Seq::<Seq<char>>::empty(),
    {
        let r = Connectors { entries: Vec::new() };
        proof {
            assert(r.ids() =~= Seq::<Seq<char>>::empty());
        }
        r
    }

    /// Whether the mapping binds `id`.
    pub fn contains_id(&self, id: &str) -> (r: bool)
        ensures
            r == self.has_id(id@),
    {
        let mut i: usize = 0;
        let n = self.entries.len();
        while i < n
            invariant
                n == self.entries@.len(),
                i <= n,
                forall|j: int| 0 <= j < i ==> self.ids()[j] != id@,
            decreases n - i,
        {
            if str_eq(self.entries[i].id.as_str(), id) {
                proof {
                    lemma_id_index_is_first(self.ids(), id@, i as int);
                }
                return true;
            }
            i += 1;
        }
        proof {
            lemma_id_index(self.ids(), id@);
            assert(id_index(self.ids(), id@) < 0) by {
                if id_index(self.ids(), id@) >= 0 {
                    assert(self.ids()[id_index(self.ids(), id@)] == id@);
                }
            }
        }
        false
    }

    /// Binds a fresh `id` to `record`.
    pub fn add(&mut self, id: String, record: ConnectorRecord)
        requires
            old(self).wf(),
            record.wf(),
            !old(self).has_id(id@),
        ensures
            final(self).wf(),
            final(self).ids() == old(self).ids().push(id@),
            final(self).spec_find(id@) == Some(record),
            forall|k: Seq<char>|
                k != id@ ==> final(self).spec_find(k) == #[trigger] old(self).spec_find(k),
    {
        let ghost ids0 = self.ids();
        let ghost n = self.entries@.len();
        self.entries.push(ConnectorEntry { id, record });
        proof {
            let ids1 = self.ids();
            assert(ids1 =~= ids0.push(ids1[n as int]));
            lemma_id_index(ids0, ids1[n as int]);
            assert(id_index(ids0, ids1[n as int]) < 0) by {
                if id_index(ids0, ids1[n as int]) >= 0 {
                    assert(ids0[id_index(ids0, ids1[n as int])] == ids1[n as int]);
                    assert(old(self).has_id(ids1[n as int]));
                }
            }
            assert forall|x: int, y: int|
                0 <= x < y < ids1.len() implies ids1[x] != ids1[y] by {
                if y < n {
                    assert(ids0[x] != ids0[y]);
                } else {
                    if x < n {
                        assert(ids0[x] != ids1[n as int]);
                    }
                }
            }
            lemma_id_index_is_first(ids1, ids1[n as int], n as int);
            assert forall|k: Seq<char>|
                k != ids1[n as int] implies self.spec_find(k) == #[trigger] old(self).spec_find(
                k,
            ) by {
                lemma_id_index(ids0, k);
                lemma_id_index(ids1, k);
                if id_index(ids0, k) >= 0 {
                    let i = id_index(ids0, k);
                    assert(ids1[i] == k);
                    assert forall|j: int| 0 <= j < i implies ids1[j] != k by {
                        assert(ids0[j] != k);
                    }
                    lemma_id_index_is_first(ids1, k, i);
                } else {
                    if id_index(ids1, k) >= 0 {
                        let i = id_index(ids1, k);
                        assert(ids1[i] == k);
                        assert(i != n ==> ids0[i] == k);
                        assert(false);
                    }
                }
            }
        }
    }

    /// The number of bindings.
    pub fn len(&self) -> (r: usize)
        ensures
            r == self.ids().len(),
    {
        self.entries.len()
    }

    /// Looks the connector id up; a miss reports the id, the searched root,
    /// and a sorted sample of at most [`KNOWN_IDS_CAP`] known ids.
    pub fn lookup_connector<'a>(&'a self, conn_id: &str, start_root: &str) -> (r: Result<
        &'a ConnectorRecord,
        ConfError,
    >)
        requires
            self.wf(),
        ensures
            match r {
                Ok(rec) => {
                    &&& self.spec_find(conn_id@) == Some(*rec)
                    &&& rec.wf()
                },
                Err(e) => {
                    &&& !self.has_id(conn_id@)
                    &&& e matches ConfError::ConnectorNotFound {
                        conn_id: cid,
                        start_root: sr,
                        known_ids,
                    } && cid@ == conn_id@ && sr@ == start_root@ && strutil::views(known_ids@)
                        == self.known_sample()
                },
            },
    {
        let n = self.entries.len();
        let mut i: usize = 0;
        while i < n
            invariant
                self.wf(),
                n == self.entries@.len(),
                i <= n,
                forall|j: int| 0 <= j < i ==> self.ids()[j] != conn_id@,
            decreases n - i,
        {
            if str_eq(self.entries[i].id.as_str(), conn_id) {
                proof {
                    lemma_id_index_is_first(self.ids(), conn_id@, i as int);
                }
                return Ok(&self.entries[i].record);
            }
            i += 1;
        }
        proof {
            lemma_id_index(self.ids(), conn_id@);
            assert(id_index(self.ids(), conn_id@) < 0) by {
                if id_index(self.ids(), conn_id@) >= 0 {
                    assert(self.ids()[id_index(self.ids(), conn_id@)] == conn_id@);
                }
            }
        }
        let mut all: Vec<String> = Vec::new();
        let mut j: usize = 0;
        while j < n
            invariant
                n == self.entries@.len(),
                j <= n,
                all@.len() == j,
                forall|t: int| 0 <= t < j ==> all@[t]@ == self.ids()[t],
            decreases n - j,
        {
            all.push(self.entries[j].id.clone());
            j += 1;
        }
        proof {
            assert(strutil::views(all@) =~= self.ids());
        }
        let mut known = sorted_strings(&all);
        proof {
            crate::strutil::lemma_lex_total_ordering();
            self.ids().lemma_sort_by_ensures(lex_leq());
            broadcast use vstd::seq_lib::group_to_multiset_ensures;

            assert(self.ids().to_multiset() == self.sorted_ids().to_multiset());
            assert(self.ids().len() == self.ids().to_multiset().len());
            assert(self.sorted_ids().len() == self.sorted_ids().to_multiset().len());
            assert(known@.len() == strutil::views(known@).len());
            assert(known@.len() == self.ids().len());
        }
        if known.len() > KNOWN_IDS_CAP {
            let ghost pre = known@;
            known.truncate(KNOWN_IDS_CAP);
            proof {
                assert(strutil::views(known@) =~= strutil::views(pre).take(KNOWN_IDS_CAP as int));
            }
        }
        proof {
            assert(strutil::views(known@) == self.known_sample());
        }
        Err(
            ConfError::ConnectorNotFound {
                conn_id: String::from_str(conn_id),
                start_root: String::from_str(start_root),
                known_ids: known,
            },
        )
    }
}

/// The sample of known ids a lookup error quotes has exactly
/// [`KNOWN_IDS_CAP`] entries when more ids are known, and all of them
/// otherwise.
pub proof fn lemma_known_sample_len(c: Connectors)
    ensures
        c.ids().len() > KNOWN_IDS_CAP ==> c.known_sample().len() == KNOWN_IDS_CAP,
        c.ids().len() <= KNOWN_IDS_CAP ==> c.known_sample().len() == c.ids().len(),
{
    crate::strutil::lemma_lex_total_ordering();
    c.ids().lemma_sort_by_ensures(lex_leq());
    broadcast use vstd::seq_lib::group_to_multiset_ensures;

    assert(c.ids().to_multiset() == c.sorted_ids().to_multiset());
    assert(c.ids().len() == c.ids().to_multiset().len());
    assert(c.sorted_ids().len() == c.sorted_ids().to_multiset().len());
    assert(c.sorted_ids().len() == c.ids().len());
}

/// The fully resolved output-sink specification.
#[derive(Debug)]
pub struct ResolvedSinkSpec {
    /// Logical name of the output binding.
    pub name: String,
    /// The chosen serialization format.
    pub fmt: TextFmt,
    /// Connector kind, copied from the selected record.
    pub kind: String,
    /// The merged-and-policy-adjusted parameter table.
    pub params: ParamTable,
    /// The connector id this specification was resolved from.
    pub connector_id: Option<String>,
}

/// The parameter table a successful resolution produces: the whitelist merge
/// of the record's parameters with the overrides, adjusted by the backoff
/// policy.
pub open spec fn resolved_params_model(rec: ConnectorRecord, conf: WpGenConfig) -> TableModel {
    spec_apply_policy(
        rec.kind@,
        conf.generator.speed as nat,
        spec_merge(rec.params.model(), conf.output.params.model()),
    )
}

/// Resolves the output sink of `conf` against the connector mapping
/// `connectors`; `start_root` is the directory the mapping was loaded from,
/// quoted in lookup diagnostics.
///
/// The resolution requires `output.connect` (there is deliberately no
/// implicit default connector), merges the overrides under the connector's
/// whitelist, applies the backoff policy, and chooses the format.  The first
/// failure aborts the resolution; no partial specification is returned.
pub fn resolve_out_sink(conf: &WpGenConfig, connectors: &Connectors, start_root: &str) -> (r:
    Result<ResolvedSinkSpec, ConfError>)
    requires
        connectors.wf(),
    ensures
        match r {
            Ok(s) => conf.output.connect matches Some(cid) && (connectors.spec_find(cid@)
                matches Some(rec) && {
                &&& first_rejected(rec.whitelist(), model_keys(conf.output.params.model())) < 0
                &&& s.name@ == conf.out_name()
                &&& s.kind@ == rec.kind@
                &&& s.params.wf()
                &&& s.params.model() == resolved_params_model(rec, *conf)
                &&& s.fmt == spec_select_fmt(rec.kind@, s.params.model())
                &&& s.connector_id matches Some(c) && c@ == cid@
            }),
            Err(e) => {
                ||| (conf.output.connect is None && e matches ConfError::MissingConnectorId)
                ||| (conf.output.connect matches Some(cid) && !connectors.has_id(cid@) && (
                e matches ConfError::ConnectorNotFound { conn_id, start_root: sr, known_ids }
                    && conn_id@ == cid@ && sr@ == start_root@ && strutil::views(known_ids@)
                    == connectors.known_sample()))
                ||| (conf.output.connect matches Some(cid) && (connectors.spec_find(cid@)
                    matches Some(rec) && merge_rejection(
                    e,
                    rec.whitelist(),
                    conf.output.params.model(),
                    cid@,
                )))
            },
        },
{
    let out_name: String = match &conf.output.name {
        Some(n) => n.clone(),
        None => String::from_str("gen_out"),
    };
    let cid: &String = match &conf.output.connect {
        Some(c) => c,
        None => {
            return Err(ConfError::MissingConnectorId);
        },
    };
    let rec = match connectors.lookup_connector(cid.as_str(), start_root) {
        Ok(r) => r,
        Err(e) => {
            return Err(e);
        },
    };
    let mut params = match merge_params_with_whitelist(rec, &conf.output.params, cid.as_str()) {
        Ok(m) => m,
        Err(e) => {
            return Err(e);
        },
    };
    apply_policy(rec.kind.as_str(), conf.generator.speed, &mut params);
    let fmt = select_text_fmt(rec.kind.as_str(), &params);
    Ok(
        ResolvedSinkSpec {
            name: out_name,
            fmt,
            kind: rec.kind.clone(),
            params,
            connector_id: Some(cid.clone()),
        },
    )
}

} // verus!
