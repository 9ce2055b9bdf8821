//! Sink validation reporting.
//!
//! A validation pass checks configured sink expectations — which share of
//! the total input each sink of each group should receive, in percent —
//! either structurally (from configuration alone) or against observed
//! per-sink line counts.  Every finding is an item with a severity:
//!
//! - `Warn`: the observed count drifts from the expected one by at most one
//!   percent of the total (rounding drift);
//! - `Error`: a group's shares do not sum to 100, an observed count is off
//!   by more than one percent of the total, or a counted sink was never
//!   declared;
//! - `Panic`: a structural impossibility — a nonzero expected share of a
//!   zero total.
//!
//! Only `Error` and `Panic` fail a run; a Warn-only report passes.

use crate::strutil;
use crate::strutil::dec_str;
use vstd::prelude::*;
use vstd::string::StrSliceExecFns;
use vstd::string::StringExecFns;

verus! {

/// Severity of one validation item.
#[derive(Clone, Copy, Debug, PartialEq, Eq, Structural)]
pub enum Severity {
    Warn,
    Error,
    Panic,
}

/// Whether a severity fails the run.
pub open spec fn is_failing(s: Severity) -> bool {
    s is Error || s is Panic
}

/// One validation finding.
#[derive(Debug)]
pub struct ValidationItem {
    pub severity: Severity,
    pub group: String,
    pub sink: String,
    pub msg: String,
}

/// The mathematical shape of a finding.
#[verifier::ext_equal]
pub struct ItemModel {
    pub sev: Severity,
    pub group: Seq<char>,
    pub sink: Seq<char>,
    pub msg: Seq<char>,
}

/// The shape of one item.
pub open spec fn item_model(it: ValidationItem) -> ItemModel {
    ItemModel { sev: it.severity, group: it.group@, sink: it.sink@, msg: it.msg@ }
}

/// The shapes of a sequence of items, in order.
pub open spec fn items_model(items: Seq<ValidationItem>) -> Seq<ItemModel> {
    items.map_values(|it: ValidationItem| item_model(it))
}

/// An ordered aggregation of validation findings.
#[derive(Debug)]
pub struct ValidationReport {
    pub items: Vec<ValidationItem>,
}

impl ValidationReport {
    /// The report's findings, as shapes.
    pub open spec fn model(self) -> Seq<ItemModel> {
        items_model(self.items@)
    }

    /// Whether some finding fails the run.
    pub open spec fn spec_has_error_fail(self) -> bool {
        exists|i: int| 0 <= i < self.model().len() && is_failing(self.model()[i].sev)
    }

    /// The empty report.
    pub fn new() -> (r: Self)
        ensures
            r.model() == Seq::<ItemModel>::empty(),
    {
        let r = ValidationReport { items: Vec::new() };
        proof {
            assert(r.model() =~= Seq::<ItemModel>::empty());
        }
        r
    }

    /// Appends a finding.
    pub fn push_item(&mut self, it: ValidationItem)
        ensures
            final(self).model() == old(self).model().push(item_model(it)),
    {
        self.items.push(it);
        proof {
            assert(self.model() =~= old(self).model().push(item_model(it)));
        }
    }

    /// True exactly when some item's severity is `Error` or `Panic`; `Warn`
    /// alone never fails a run.
    pub fn has_error_fail(&self) -> (r: bool)
        ensures
            r == self.spec_has_error_fail(),
    {
        let mut i: usize = 0;
        let n = self.items.len();
        while i < n
            invariant
                n == self.model().len(),
                i <= n,
                forall|j: int| 0 <= j < i ==> !is_failing(self.model()[j].sev),
            decreases n - i,
        {
            match self.items[i].severity {
                Severity::Warn => {},
                Severity::Error => {
                    assert(is_failing(self.model()[i as int].sev));
                    return true;
                },
                Severity::Panic => {
                    assert(is_failing(self.model()[i as int].sev));
                    return true;
                },
            }
            i += 1;
        }
        false
    }
}

/// The severity gate: a report whose findings are all `Warn` does not fail,
/// and one failing finding fails the whole report.
pub proof fn lemma_severity_gate(r: ValidationReport)
    ensures
        (forall|i: int| 0 <= i < r.model().len() ==> r.model()[i].sev is Warn)
            ==> !r.spec_has_error_fail(),
        (exists|i: int| 0 <= i < r.model().len() && is_failing(r.model()[i].sev))
            ==> r.spec_has_error_fail(),
{
}

/// One sink's expected share of the total input, in percent.
#[derive(Debug)]
pub struct SinkShare {
    pub sink: String,
    pub ratio: u64,
}

/// A group of sinks with their expected shares.
#[derive(Debug)]
pub struct GroupExpect {
    pub name: String,
    pub sinks: Vec<SinkShare>,
}

/// One observed per-sink line count.
#[derive(Debug)]
pub struct SinkCount {
    pub group: String,
    pub sink: String,
    pub lines: u64,
}

/// Addition capped at 101: enough to decide whether a ratio sum is exactly
/// 100, without unbounded arithmetic.
pub open spec fn capped_add(a: nat, b: nat) -> nat {
    if a + b > 101 {
        101
    } else {
        a + b
    }
}

/// The capped sum of a group's ratios.
pub open spec fn ratio_sum_capped(shares: Seq<SinkShare>) -> nat
    decreases shares.len(),
{
    if shares.len() == 0 {
        0
    } else {
        capped_add(ratio_sum_capped(shares.drop_last()), shares.last().ratio as nat)
    }
}

/// Whether a group's shares sum to exactly 100 percent.
pub open spec fn group_ok(g: GroupExpect) -> bool {
    ratio_sum_capped(g.sinks@) == 100
}

/// Addition capped at the largest observable line count.
pub open spec fn capped_add_lines(a: nat, b: nat) -> nat {
    if a + b > 0xffff_ffff_ffff_ffff {
        0xffff_ffff_ffff_ffff as nat
    } else {
        a + b
    }
}

/// The capped sum of all observed line counts.
pub open spec fn lines_sum_capped(stats: Seq<SinkCount>) -> nat
    decreases stats.len(),
{
    if stats.len() == 0 {
        0
    } else {
        capped_add_lines(lines_sum_capped(stats.drop_last()), stats.last().lines as nat)
    }
}

/// The total input count the checks compare against: the explicit override
/// when given, the (capped) sum of the observed counts otherwise.
pub open spec fn total_of(stats: Seq<SinkCount>, over: Option<u64>) -> nat {
    match over {
        Some(t) => t as nat,
        None => lines_sum_capped(stats),
    }
}

/// The index of the first count for `(g, s)`, or a negative number.
pub open spec fn stat_index(stats: Seq<SinkCount>, g: Seq<char>, s: Seq<char>) -> int
    decreases stats.len(),
{
    if stats.len() == 0 {
        -1
    } else if stats[0].group@ == g && stats[0].sink@ == s {
        0
    } else {
        let r = stat_index(stats.subrange(1, stats.len() as int), g, s);
        if r < 0 {
            -1
        } else {
            r + 1
        }
    }
}

/// The observed line count for `(g, s)`: the first matching count, or zero.
pub open spec fn observed(stats: Seq<SinkCount>, g: Seq<char>, s: Seq<char>) -> nat {
    let i = stat_index(stats, g, s);
    if i < 0 {
        0
    } else {
        stats[i].lines as nat
    }
}

/// Whether some group declares the sink `(g, s)`.
pub open spec fn declared(groups: Seq<GroupExpect>, g: Seq<char>, s: Seq<char>) -> bool {
    exists|i: int, j: int|
        0 <= i < groups.len() && 0 <= j < groups[i].sinks@.len() && groups[i].name@ == g && (
        #[trigger] groups[i].sinks@[j]).sink@ == s
}

/// The expected line count of a share.
pub open spec fn expected_lines(total: nat, ratio: nat) -> nat {
    total * ratio / 100
}

// ----- finding texts ------------------------------------------------------

/// Finding text: a group's shares do not sum to 100.
pub open spec fn sum_msg() -> Seq<char> {
    "sink ratios do not sum to 100"@
}

/// Finding text: a nonzero share of a zero total.
pub open spec fn zero_total_msg() -> Seq<char> {
    "nonzero expected share with zero total input"@
}

/// Finding text: a counted sink was never declared.
pub open spec fn orphan_msg() -> Seq<char> {
    "counted sink not declared in expectations"@
}

/// Finding text: observed versus expected count.
pub open spec fn count_msg(obs: nat, exp: nat) -> Seq<char> {
    "observed "@ + dec_str(obs) + " lines, expected "@ + dec_str(exp)
}


// ----- structural validation ---------------------------------------------

/// The findings one share contributes to a structural pass: only the
/// zero-total impossibility can show without observed counts.
pub open spec fn structural_share_items(
    gname: Seq<char>,
    share: SinkShare,
    over: Option<u64>,
) -> Seq<ItemModel> {
    if over == Some(0u64) && share.ratio > 0 {
        seq![
            (ItemModel {
                sev: Severity::Panic,
                group: gname,
                sink: share.sink@,
                msg: zero_total_msg(),
            }),
        ]
    } else {
        Seq::<ItemModel>::empty()
    }
}

/// The structural findings of a group's shares, in share order.
pub open spec fn structural_shares_items(
    gname: Seq<char>,
    shares: Seq<SinkShare>,
    over: Option<u64>,
) -> Seq<ItemModel>
    decreases shares.len(),
{
    if shares.len() == 0 {
        Seq::<ItemModel>::empty()
    } else {
        structural_shares_items(gname, shares.drop_last(), over) + structural_share_items(
            gname,
            shares.last(),
            over,
        )
    }
}

/// The structural findings of one group: the ratio-sum check, then the
/// per-share checks.
pub open spec fn structural_group_items(g: GroupExpect, over: Option<u64>) -> Seq<ItemModel> {
    (if group_ok(g) {
        Seq::<ItemModel>::empty()
    } else {
        seq![(ItemModel { sev: Severity::Error, group: g.name@, sink: ""@, msg: sum_msg() })]
    }) + structural_shares_items(g.name@, g.sinks@, over)
}

/// The structural findings of all groups, in group order.
pub open spec fn structural_items(groups: Seq<GroupExpect>, over: Option<u64>) -> Seq<ItemModel>
    decreases groups.len(),
{
    if groups.len() == 0 {
        Seq::<ItemModel>::empty()
    } else {
        structural_items(groups.drop_last(), over) + structural_group_items(groups.last(), over)
    }
}

/// Builds one finding from plain parts.
fn mk_item(severity: Severity, group: &str, sink: &str, msg: String) -> (it: ValidationItem)
    ensures
        item_model(it) == (ItemModel { sev: severity, group: group@, sink: sink@, msg: msg@ }),
{
    ValidationItem { severity, group: String::from_str(group), sink: String::from_str(sink), msg }
}

/// The capped ratio sum of a group, as the specification counts it.
fn ratio_sum(g: &GroupExpect) -> (s: u64)
    ensures
        s as nat == ratio_sum_capped(g.sinks@),
{
    let mut acc: u64 = 0;
    let mut j: usize = 0;
    proof {
        assert(g.sinks@.take(0) =~= Seq::<SinkShare>::empty());
    }
    while j < g.sinks.len()
        invariant
            j <= g.sinks@.len(),
            acc <= 101,
            acc as nat == ratio_sum_capped(g.sinks@.take(j as int)),
        decreases g.sinks@.len() - j,
    {
        let ratio = g.sinks[j].ratio;
        let ghost pre = g.sinks@.take(j as int);
        if ratio > 101 - acc {
            acc = 101;
        } else {
            acc = acc + ratio;
        }
        j += 1;
        proof {
            let cur = g.sinks@.take(j as int);
            assert(cur.drop_last() =~= pre);
            assert(cur.last() == g.sinks@[j - 1]);
        }
    }
    proof {
        assert(g.sinks@.take(g.sinks@.len() as int) =~= g.sinks@);
    }
    acc
}

/// Appends one group's structural findings to the report.
fn push_group_structural(r: &mut ValidationReport, g: &GroupExpect, over: Option<u64>)
    ensures
        final(r).model() == old(r).model() + structural_group_items(*g, over),
{
    let ghost base = r.model();
    let sum = ratio_sum(g);
    if sum != 100 {
        let it = mk_item(Severity::Error, g.name.as_str(), "", String::from_str(
            "sink ratios do not sum to 100",
        ));
        r.push_item(it);
    }
    let ghost head = r.model();
    proof {
        if group_ok(*g) {
            assert(head =~= base + Seq::<ItemModel>::empty());
        } else {
            assert(head =~= base + seq![
                (ItemModel { sev: Severity::Error, group: g.name@, sink: ""@, msg: sum_msg() }),
            ]);
        }
    }
    let zero_total = match input_is_zero(over) {
        true => true,
        false => false,
    };
    let mut j: usize = 0;
    proof {
        assert(g.sinks@.take(0) =~= Seq::<SinkShare>::empty());
        assert(r.model() =~= head + structural_shares_items(g.name@, g.sinks@.take(0), over));
    }
    while j < g.sinks.len()
        invariant
            j <= g.sinks@.len(),
            zero_total == (over == Some(0u64)),
            r.model() == head + structural_shares_items(g.name@, g.sinks@.take(j as int), over),
        decreases g.sinks@.len() - j,
    {
        let ghost pre = g.sinks@.take(j as int);
        if zero_total && g.sinks[j].ratio > 0 {
            let it = mk_item(Severity::Panic, g.name.as_str(), g.sinks[j].sink.as_str(),
                String::from_str("nonzero expected share with zero total input"),
            );
            r.push_item(it);
        }
        j += 1;
        proof {
            let cur = g.sinks@.take(j as int);
            assert(cur.drop_last() =~= pre);
            assert(cur.last() == g.sinks@[j - 1]);
            assert(r.model() =~= head + structural_shares_items(g.name@, cur, over));
        }
    }
    proof {
        assert(g.sinks@.take(g.sinks@.len() as int) =~= g.sinks@);
        assert(final(r).model() =~= old(r).model() + structural_group_items(*g, over));
    }
}

/// Whether the override pins the total input at zero.
fn input_is_zero(over: Option<u64>) -> (r: bool)
    ensures
        r == (over == Some(0u64)),
{
    match over {
        Some(t) => t == 0,
        None => false,
    }
}

/// Validates sink expectations structurally, from configuration alone:
/// every group's shares must sum to 100 percent, and no share may expect a
/// part of an explicitly zero total.
pub fn validate_groups(groups: &Vec<GroupExpect>, input_override: Option<u64>) -> (r:
    ValidationReport)
    ensures
        r.model() == structural_items(groups@, input_override),
{
    let mut r = ValidationReport::new();
    let mut i: usize = 0;
    proof {
        assert(groups@.take(0) =~= Seq::<GroupExpect>::empty());
        assert(r.model() =~= structural_items(groups@.take(0), input_override));
    }
    while i < groups.len()
        invariant
            i <= groups@.len(),
            r.model() == structural_items(groups@.take(i as int), input_override),
        decreases groups@.len() - i,
    {
        let ghost pre = groups@.take(i as int);
        push_group_structural(&mut r, &groups[i], input_override);
        i += 1;
        proof {
            let cur = groups@.take(i as int);
            assert(cur.drop_last() =~= pre);
            assert(cur.last() == groups@[i - 1]);
            assert(r.model() =~= structural_items(cur, input_override));
        }
    }
    proof {
        assert(groups@.take(groups@.len() as int) =~= groups@);
    }
    r
}


// ----- validation against observed counts --------------------------------

/// What `stat_index` finds: the first matching count, or none at all.
pub proof fn lemma_stat_index(stats: Seq<SinkCount>, g: Seq<char>, s: Seq<char>)
    ensures
        stat_index(stats, g, s) >= 0 ==> {
            &&& stat_index(stats, g, s) < stats.len()
            &&& stats[stat_index(stats, g, s)].group@ == g
            &&& stats[stat_index(stats, g, s)].sink@ == s
            &&& forall|j: int|
                0 <= j < stat_index(stats, g, s) ==> !((#[trigger] stats[j]).group@ == g
                    && stats[j].sink@ == s)
        },
        stat_index(stats, g, s) < 0 ==> forall|j: int|
            0 <= j < stats.len() ==> !((#[trigger] stats[j]).group@ == g && stats[j].sink@ == s),
    decreases stats.len(),
{
    if stats.len() > 0 && !(stats[0].group@ == g && stats[0].sink@ == s) {
        let t = stats.subrange(1, stats.len() as int);
        lemma_stat_index(t, g, s);
        assert forall|j: int| 1 <= j < stats.len() implies stats[j] == t[j - 1] by {}
    }
}

/// Any first match determines `stat_index`.
pub proof fn lemma_stat_index_is_first(stats: Seq<SinkCount>, g: Seq<char>, s: Seq<char>, i: int)
    requires
        0 <= i < stats.len(),
        stats[i].group@ == g,
        stats[i].sink@ == s,
        forall|j: int| 0 <= j < i ==> !((#[trigger] stats[j]).group@ == g && stats[j].sink@ == s),
    ensures
        stat_index(stats, g, s) == i,
    decreases i,
{
    if i > 0 {
        let t = stats.subrange(1, stats.len() as int);
        assert(t[i - 1] == stats[i]);
        assert forall|j: int|
            0 <= j < i - 1 implies !((#[trigger] t[j]).group@ == g && t[j].sink@ == s) by {
            assert(t[j] == stats[j + 1]);
        }
        lemma_stat_index_is_first(t, g, s, i - 1);
    }
}

/// The findings one share contributes when observed counts are available.
pub open spec fn stat_share_items(
    gname: Seq<char>,
    share: SinkShare,
    stats: Seq<SinkCount>,
    total: nat,
) -> Seq<ItemModel> {
    if total == 0 && share.ratio > 0 {
        seq![
            (ItemModel {
                sev: Severity::Panic,
                group: gname,
                sink: share.sink@,
                msg: zero_total_msg(),
            }),
        ]
    } else {
        let exp = expected_lines(total, share.ratio as nat);
        let obs = observed(stats, gname, share.sink@);
        if obs == exp {
            Seq::<ItemModel>::empty()
        } else {
            let diff = if obs >= exp {
                obs - exp
            } else {
                exp - obs
            };
            if diff <= total / 100 {
                seq![
                    (ItemModel {
                        sev: Severity::Warn,
                        group: gname,
                        sink: share.sink@,
                        msg: count_msg(obs, exp),
                    }),
                ]
            } else {
                seq![
                    (ItemModel {
                        sev: Severity::Error,
                        group: gname,
                        sink: share.sink@,
                        msg: count_msg(obs, exp),
                    }),
                ]
            }
        }
    }
}

/// The count findings of a group's shares, in share order.
pub open spec fn stat_shares_items(
    gname: Seq<char>,
    shares: Seq<SinkShare>,
    stats: Seq<SinkCount>,
    total: nat,
) -> Seq<ItemModel>
    decreases shares.len(),
{
    if shares.len() == 0 {
        Seq::<ItemModel>::empty()
    } else {
        stat_shares_items(gname, shares.drop_last(), stats, total) + stat_share_items(
            gname,
            shares.last(),
            stats,
            total,
        )
    }
}

/// The findings of one group against observed counts: the ratio-sum check,
/// then the per-share count checks.
pub open spec fn stat_group_items(
    g: GroupExpect,
    stats: Seq<SinkCount>,
    total: nat,
) -> Seq<ItemModel> {
    (if group_ok(g) {
        Seq::<ItemModel>::empty()
    } else {
        seq![(ItemModel { sev: Severity::Error, group: g.name@, sink: ""@, msg: sum_msg() })]
    }) + stat_shares_items(g.name@, g.sinks@, stats, total)
}

/// The findings of all groups against observed counts, in group order.
pub open spec fn stat_groups_items(
    groups: Seq<GroupExpect>,
    stats: Seq<SinkCount>,
    total: nat,
) -> Seq<ItemModel>
    decreases groups.len(),
{
    if groups.len() == 0 {
        Seq::<ItemModel>::empty()
    } else {
        stat_groups_items(groups.drop_last(), stats, total) + stat_group_items(
            groups.last(),
            stats,
            total,
        )
    }
}

/// One error per counted sink that no group declares, in count order.
pub open spec fn orphan_items(groups: Seq<GroupExpect>, stats: Seq<SinkCount>) -> Seq<ItemModel>
    decreases stats.len(),
{
    if stats.len() == 0 {
        Seq::<ItemModel>::empty()
    } else {
        orphan_items(groups, stats.drop_last()) + (if declared(
            groups,
            stats.last().group@,
            stats.last().sink@,
        ) {
            Seq::<ItemModel>::empty()
        } else {
            seq![
                (ItemModel {
                    sev: Severity::Error,
                    group: stats.last().group@,
                    sink: stats.last().sink@,
                    msg: orphan_msg(),
                }),
            ]
        })
    }
}

/// Everything a validation against observed counts reports: every group's
/// findings, then the orphan findings.
pub open spec fn stats_items(
    groups: Seq<GroupExpect>,
    stats: Seq<SinkCount>,
    over: Option<u64>,
) -> Seq<ItemModel> {
    stat_groups_items(groups, stats, total_of(stats, over)) + orphan_items(groups, stats)
}

/// The capped sum of the observed line counts, as the specification counts
/// it.
fn lines_sum(stats: &Vec<SinkCount>) -> (s: u64)
    ensures
        s as nat == lines_sum_capped(stats@),
{
    let mut acc: u64 = 0;
    let mut j: usize = 0;
    proof {
        assert(stats@.take(0) =~= Seq::<SinkCount>::empty());
    }
    while j < stats.len()
        invariant
            j <= stats@.len(),
            acc as nat == lines_sum_capped(stats@.take(j as int)),
        decreases stats@.len() - j,
    {
        let lines = stats[j].lines;
        let ghost pre = stats@.take(j as int);
        if lines > u64::MAX - acc {
            acc = u64::MAX;
        } else {
            acc = acc + lines;
        }
        j += 1;
        proof {
            let cur = stats@.take(j as int);
            assert(cur.drop_last() =~= pre);
            assert(cur.last() == stats@[j - 1]);
        }
    }
    proof {
        assert(stats@.take(stats@.len() as int) =~= stats@);
    }
    acc
}

/// The observed line count for `(g, s)`: the first matching count, or zero.
fn observed_lines(stats: &Vec<SinkCount>, g: &str, s: &str) -> (r: u64)
    ensures
        r as nat == observed(stats@, g@, s@),
{
    let mut j: usize = 0;
    let n = stats.len();
    while j < n
        invariant
            n == stats@.len(),
            j <= n,
            forall|t: int|
                0 <= t < j ==> !((#[trigger] stats@[t]).group@ == g@ && stats@[t].sink@ == s@),
        decreases n - j,
    {
        if strutil::str_eq(stats[j].group.as_str(), g) && strutil::str_eq(
            stats[j].sink.as_str(),
            s,
        ) {
            proof {
                lemma_stat_index_is_first(stats@, g@, s@, j as int);
            }
            return stats[j].lines;
        }
        j += 1;
    }
    proof {
        lemma_stat_index(stats@, g@, s@);
        assert(stat_index(stats@, g@, s@) < 0) by {
            if stat_index(stats@, g@, s@) >= 0 {
                let t = stat_index(stats@, g@, s@);
                assert(stats@[t].group@ == g@ && stats@[t].sink@ == s@);
            }
        }
    }
    0
}

/// Whether some group declares the sink `(g, s)`.
fn is_declared(groups: &Vec<GroupExpect>, g: &str, s: &str) -> (r: bool)
    ensures
        r == declared(groups@, g@, s@),
{
    let mut i: usize = 0;
    let n = groups.len();
    while i < n
        invariant
            n == groups@.len(),
            i <= n,
            forall|x: int, y: int|
                0 <= x < i && 0 <= y < groups@[x].sinks@.len() ==> !(groups@[x].name@ == g@ && (
                #[trigger] groups@[x].sinks@[y]).sink@ == s@),
        decreases n - i,
    {
        if strutil::str_eq(groups[i].name.as_str(), g) {
            let m = groups[i].sinks.len();
            let mut j: usize = 0;
            while j < m
                invariant
                    n == groups@.len(),
                    i < n,
                    m == groups@[i as int].sinks@.len(),
                    j <= m,
                    groups@[i as int].name@ == g@,
                    forall|y: int|
                        0 <= y < j ==> (#[trigger] groups@[i as int].sinks@[y]).sink@ != s@,
                decreases m - j,
            {
                if strutil::str_eq(groups[i].sinks[j].sink.as_str(), s) {
                    assert(declared(groups@, g@, s@)) by {
                        assert((groups@[i as int].sinks@[j as int]).sink@ == s@);
                    }
                    return true;
                }
                j += 1;
            }
        }
        i += 1;
    }
    proof {
        if declared(groups@, g@, s@) {
            let (x, y) = choose|x: int, y: int|
                0 <= x < groups@.len() && 0 <= y < groups@[x].sinks@.len() && groups@[x].name@
                    == g@ && (#[trigger] groups@[x].sinks@[y]).sink@ == s@;
            assert(!(groups@[x].name@ == g@ && (groups@[x].sinks@[y]).sink@ == s@));
        }
    }
    false
}

/// The expected line count of a share, exactly as the specification divides
/// it.
fn expected_of(total: u64, ratio: u64) -> (r: u128)
    ensures
        r as nat == expected_lines(total as nat, ratio as nat),
{
    let t = total as u128;
    let q = ratio as u128;
    proof {
        assert(t * q <= 0xffff_ffff_ffff_ffffu128 * 0xffff_ffff_ffff_ffffu128) by (nonlinear_arith)
            requires
                t <= 0xffff_ffff_ffff_ffffu128,
                q <= 0xffff_ffff_ffff_ffffu128,
        ;
    }
    (t * q) / 100
}

/// Appends one group's count findings to the report.
fn push_group_stats(r: &mut ValidationReport, g: &GroupExpect, stats: &Vec<SinkCount>, total: u64)
    ensures
        final(r).model() == old(r).model() + stat_group_items(*g, stats@, total as nat),
{
    let ghost base = r.model();
    let sum = ratio_sum(g);
    if sum != 100 {
        let it = mk_item(Severity::Error, g.name.as_str(), "", String::from_str(
            "sink ratios do not sum to 100",
        ));
        r.push_item(it);
    }
    let ghost head = r.model();
    proof {
        if group_ok(*g) {
            assert(head =~= base + Seq::<ItemModel>::empty());
        } else {
            assert(head =~= base + seq![
                (ItemModel { sev: Severity::Error, group: g.name@, sink: ""@, msg: sum_msg() }),
            ]);
        }
    }
    let mut j: usize = 0;
    proof {
        assert(g.sinks@.take(0) =~= Seq::<SinkShare>::empty());
        assert(r.model() =~= head + stat_shares_items(
            g.name@,
            g.sinks@.take(0),
            stats@,
            total as nat,
        ));
    }
    while j < g.sinks.len()
        invariant
            j <= g.sinks@.len(),
            r.model() == head + stat_shares_items(
                g.name@,
                g.sinks@.take(j as int),
                stats@,
                total as nat,
            ),
        decreases g.sinks@.len() - j,
    {
        let ghost pre = g.sinks@.take(j as int);
        let share = &g.sinks[j];
        if total == 0 && share.ratio > 0 {
            let it = mk_item(Severity::Panic, g.name.as_str(), share.sink.as_str(),
                String::from_str("nonzero expected share with zero total input"),
            );
            r.push_item(it);
        } else {
            let exp = expected_of(total, share.ratio);
            let obs64 = observed_lines(stats, g.name.as_str(), share.sink.as_str());
            let obs = obs64 as u128;
            if obs != exp {
                let diff: u128 = if obs >= exp {
                    obs - exp
                } else {
                    exp - obs
                };
                let mut msg = String::new();
                msg.append("observed ");
                strutil::append_dec(&mut msg, obs64);
                msg.append(" lines, expected ");
                append_dec_u128(&mut msg, exp);
                proof {
                    assert(msg@ =~= count_msg(obs as nat, exp as nat));
                }
                let sev = if diff <= (total / 100) as u128 {
                    Severity::Warn
                } else {
                    Severity::Error
                };
                let it = mk_item(sev, g.name.as_str(), share.sink.as_str(), msg);
                r.push_item(it);
            }
        }
        j += 1;
        proof {
            let cur = g.sinks@.take(j as int);
            assert(cur.drop_last() =~= pre);
            assert(cur.last() == g.sinks@[j - 1]);
            assert(r.model() =~= head + stat_shares_items(g.name@, cur, stats@, total as nat));
        }
    }
    proof {
        assert(g.sinks@.take(g.sinks@.len() as int) =~= g.sinks@);
        assert(final(r).model() =~= old(r).model() + stat_group_items(*g, stats@, total as nat));
    }
}

/// Appends the decimal rendering of `n` to `s`.
fn append_dec_u128(s: &mut String, n: u128)
    ensures
        final(s)@ == old(s)@ + dec_str(n as nat),
    decreases n,
{
    if n < 10 {
        strutil::push_char(s, dec_digit_char_u128(n));
    } else {
        append_dec_u128(s, n / 10);
        strutil::push_char(s, dec_digit_char_u128(n % 10));
    }
}

fn dec_digit_char_u128(d: u128) -> (c: char)
    requires
        d < 10,
    ensures
        c == strutil::dec_digit(d as nat),
{
    if d == 0 {
        '0'
    } else if d == 1 {
        '1'
    } else if d == 2 {
        '2'
    } else if d == 3 {
        '3'
    } else if d == 4 {
        '4'
    } else if d == 5 {
        '5'
    } else if d == 6 {
        '6'
    } else if d == 7 {
        '7'
    } else if d == 8 {
        '8'
    } else {
        '9'
    }
}

/// Validates sink expectations against observed per-sink line counts: the
/// structural ratio-sum check, the per-share count comparison against the
/// total input, and an error for every counted sink that was never
/// declared.
pub fn validate_with_stats(
    groups: &Vec<GroupExpect>,
    stats: &Vec<SinkCount>,
    input_override: Option<u64>,
) -> (r: ValidationReport)
    ensures
        r.model() == stats_items(groups@, stats@, input_override),
{
    let total: u64 = match input_override {
        Some(t) => t,
        None => lines_sum(stats),
    };
    let mut r = ValidationReport::new();
    let mut i: usize = 0;
    proof {
        assert(groups@.take(0) =~= Seq::<GroupExpect>::empty());
        assert(r.model() =~= stat_groups_items(groups@.take(0), stats@, total as nat));
    }
    while i < groups.len()
        invariant
            i <= groups@.len(),
            total as nat == total_of(stats@, input_override),
            r.model() == stat_groups_items(groups@.take(i as int), stats@, total as nat),
        decreases groups@.len() - i,
    {
        let ghost pre = groups@.take(i as int);
        push_group_stats(&mut r, &groups[i], stats, total);
        i += 1;
        proof {
            let cur = groups@.take(i as int);
            assert(cur.drop_last() =~= pre);
            assert(cur.last() == groups@[i - 1]);
            assert(r.model() =~= stat_groups_items(cur, stats@, total as nat));
        }
    }
    let ghost groups_part = r.model();
    proof {
        assert(groups@.take(groups@.len() as int) =~= groups@);
        assert(stats@.take(0) =~= Seq::<SinkCount>::empty());
        assert(r.model() =~= groups_part + orphan_items(groups@, stats@.take(0)));
    }
    let mut k: usize = 0;
    while k < stats.len()
        invariant
            k <= stats@.len(),
            r.model() == groups_part + orphan_items(groups@, stats@.take(k as int)),
        decreases stats@.len() - k,
    {
        let ghost pre = stats@.take(k as int);
        let row = &stats[k];
        if !is_declared(groups, row.group.as_str(), row.sink.as_str()) {
            let it = mk_item(Severity::Error, row.group.as_str(), row.sink.as_str(),
                String::from_str("counted sink not declared in expectations"),
            );
            r.push_item(it);
        }
        k += 1;
        proof {
            let cur = stats@.take(k as int);
            assert(cur.drop_last() =~= pre);
            assert(cur.last() == stats@[k - 1]);
            assert(r.model() =~= groups_part + orphan_items(groups@, cur));
        }
    }
    proof {
        assert(stats@.take(stats@.len() as int) =~= stats@);
        assert(r.model() =~= stats_items(groups@, stats@, input_override));
    }
    r
}


// ----- JSON rendering -----------------------------------------------------

/// How one character is written inside a JSON string: quote, backslash,
/// newline, carriage return and tab are escaped; everything else passes
/// through unchanged.
pub open spec fn json_escape_char(c: char) -> Seq<char> {
    if c == '"' {
        seq!['\\', '"']
    } else if c == '\\' {
        seq!['\\', '\\']
    } else if c == '\n' {
        seq!['\\', 'n']
    } else if c == '\r' {
        seq!['\\', 'r']
    } else if c == '\t' {
        seq!['\\', 't']
    } else {
        seq![c]
    }
}

/// A character sequence written as the body of a JSON string.
pub open spec fn json_escape(s: Seq<char>) -> Seq<char>
    decreases s.len(),
{
    if s.len() == 0 {
        Seq::<char>::empty()
    } else {
        json_escape(s.drop_last()) + json_escape_char(s.last())
    }
}

/// Appends the JSON-escaped body of `t` to `out`.
fn append_json_escaped(out: &mut String, t: &str)
    ensures
        final(out)@ == old(out)@ + json_escape(t@),
{
    let n = t.unicode_len();
    let mut i: usize = 0;
    proof {
        assert(t@.take(0) =~= Seq::<char>::empty());
        assert(out@ =~= out@ + json_escape(t@.take(0)));
    }
    while i < n
        invariant
            n == t@.len(),
            i <= n,
            out@ == old(out)@ + json_escape(t@.take(i as int)),
        decreases n - i,
    {
        let ghost pre = t@.take(i as int);
        let c = t.get_char(i);
        if c == '"' {
            out.append("\\\"");
        } else if c == '\\' {
            out.append("\\\\");
        } else if c == '\n' {
            out.append("\\n");
        } else if c == '\r' {
            out.append("\\r");
        } else if c == '\t' {
            out.append("\\t");
        } else {
            strutil::push_char(out, c);
        }
        i += 1;
        proof {
            let cur = t@.take(i as int);
            assert(cur.drop_last() =~= pre);
            assert(cur.last() == t@[i - 1]);
            reveal_strlit("\\\"");
            reveal_strlit("\\\\");
            reveal_strlit("\\n");
            reveal_strlit("\\r");
            reveal_strlit("\\t");
            assert(out@ =~= old(out)@ + json_escape(cur));
        }
    }
    proof {
        assert(t@.take(n as int) =~= t@);
    }
}

/// The JSON name of a severity.
pub open spec fn severity_json(s: Severity) -> Seq<char> {
    match s {
        Severity::Warn => "WARN"@,
        Severity::Error => "ERROR"@,
        Severity::Panic => "PANIC"@,
    }
}

/// One finding as a JSON object.
pub open spec fn item_json(it: ItemModel) -> Seq<char> {
    "{\"severity\": \""@ + severity_json(it.sev) + "\", \"group\": \""@ + json_escape(it.group)
        + "\", \"sink\": \""@ + json_escape(it.sink) + "\", \"msg\": \""@ + json_escape(it.msg)
        + "\"}"@
}

/// A whole report as a JSON object: the pass verdict, then every finding.
pub open spec fn report_json(r: ValidationReport) -> Seq<char> {
    "{\"pass\": "@ + (if r.spec_has_error_fail() {
        "false"@
    } else {
        "true"@
    }) + ", \"issues\": ["@ + strutil::join_comma(r.model().map_values(|it: ItemModel| item_json(it)))
        + "]}"@
}

fn render_item_json(it: &ValidationItem) -> (r: String)
    ensures
        r@ == item_json(item_model(*it)),
{
    let mut s = String::new();
    s.append("{\"severity\": \"");
    match it.severity {
        Severity::Warn => s.append("WARN"),
        Severity::Error => s.append("ERROR"),
        Severity::Panic => s.append("PANIC"),
    }
    s.append("\", \"group\": \"");
    append_json_escaped(&mut s, it.group.as_str());
    s.append("\", \"sink\": \"");
    append_json_escaped(&mut s, it.sink.as_str());
    s.append("\", \"msg\": \"");
    append_json_escaped(&mut s, it.msg.as_str());
    s.append("\"}");
    proof {
        assert(s@ =~= item_json(item_model(*it)));
    }
    s
}

impl ValidationReport {
    /// Renders the report as JSON, exactly in the shape callers serialize:
    /// `{"pass": bool, "issues": [{"severity", "group", "sink", "msg"}...]}`.
    pub fn to_json(&self) -> (r: String)
        ensures
            r@ == report_json(*self),
    {
        let mut rendered: Vec<String> = Vec::new();
        let mut i: usize = 0;
        let n = self.items.len();
        proof {
            assert(strutil::views(rendered@) =~= self.model().map_values(
                |it: ItemModel| item_json(it),
            ).take(0));
        }
        while i < n
            invariant
                n == self.items@.len(),
                i <= n,
                strutil::views(rendered@) == self.model().map_values(
                    |it: ItemModel| item_json(it),
                ).take(i as int),
            decreases n - i,
        {
            let ghost prefix = strutil::views(rendered@);
            let line = render_item_json(&self.items[i]);
            rendered.push(line);
            i += 1;
            proof {
                let all = self.model().map_values(|it: ItemModel| item_json(it));
                assert(strutil::views(rendered@) =~= prefix.push(line@));
                assert(all[i - 1] == item_json(item_model(self.items@[i - 1])));
                assert(line@ == all[i - 1]);
                assert(all.take(i as int) =~= prefix.push(all[i - 1]));
            }
        }
        let mut s = String::new();
        s.append("{\"pass\": ");
        if self.has_error_fail() {
            s.append("false");
        } else {
            s.append("true");
        }
        s.append(", \"issues\": [");
        strutil::append_joined(&mut s, &rendered);
        s.append("]}");
        proof {
            let all = self.model().map_values(|it: ItemModel| item_json(it));
            assert(all.take(n as int) =~= all);
            assert(s@ =~= report_json(*self));
        }
        s
    }
}

} // verus!
