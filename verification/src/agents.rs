//! The agents a gateway has heard of: what each last reported, and the listings that
//! operators ask for.
use vstd::prelude::*;
use vstd::string::StringExecFns;
use crate::gateway::{answer_view, has_presence, presence_of, AgentPresenceFilter, HttpError};
use crate::ids::{id_text, parse_id, random_id, uuid_parse, uuid_text};
use crate::models::{no_metadata, AgentMetadata, AgentMetadataView, AgentStatus};
use crate::table::{arranged, insert_ranked, page, page_rows, push_row, set_row, Ranked};
use crate::text::{
    blank, clone_opt_text, contains_fragment, find_text, has_fragment, is_blank,
    lemma_text_before_total, lemma_text_before_transitive, lemma_text_position, lowered,
    same_text, text_before, text_le, text_position, to_ascii_lower,
};
use crate::time::{chrono_holds, instant_in_range, now_millis, Timestamp};

verus! {

/// What a gateway knows of an agent.
#[derive(Debug, PartialEq, Eq)]
pub struct AgentSummary {
    pub id: String,
    pub hostname: String,
    /// When the agent was last seen, in milliseconds since the epoch; zero for never.
    pub last_seen_unix_ms: u64,
    /// The processor load the agent reported, as the bits of a 64-bit floating-point
    /// number. The gateway carries it and never reads it.
    pub cpu_percent_bits: u64,
    pub memory_used_bytes: u64,
    pub tenant_id: Option<String>,
    pub project_id: Option<String>,
    pub lifecycle_status: Option<String>,
}

/// The mathematical value of an [`AgentSummary`].
pub struct AgentSummaryView {
    pub id: Seq<char>,
    pub hostname: Seq<char>,
    pub last_seen_unix_ms: u64,
    pub cpu_percent_bits: u64,
    pub memory_used_bytes: u64,
    pub tenant_id: Option<Seq<char>>,
    pub project_id: Option<Seq<char>>,
    pub lifecycle_status: Option<Seq<char>>,
}

impl DeepView for AgentSummary {
    type V = AgentSummaryView;

    open spec fn deep_view(&self) -> AgentSummaryView {
        AgentSummaryView {
            id: self.id@,
            hostname: self.hostname@,
            last_seen_unix_ms: self.last_seen_unix_ms,
            cpu_percent_bits: self.cpu_percent_bits,
            memory_used_bytes: self.memory_used_bytes,
            tenant_id: self.tenant_id.deep_view(),
            project_id: self.project_id.deep_view(),
            lifecycle_status: self.lifecycle_status.deep_view(),
        }
    }
}

impl Clone for AgentSummary {
    fn clone(&self) -> (copy: Self)
        ensures
            copy.deep_view() == self.deep_view(),
    {
        AgentSummary {
            id: self.id.clone(),
            hostname: self.hostname.clone(),
            last_seen_unix_ms: self.last_seen_unix_ms,
            cpu_percent_bits: self.cpu_percent_bits,
            memory_used_bytes: self.memory_used_bytes,
            tenant_id: clone_opt_text(&self.tenant_id),
            project_id: clone_opt_text(&self.project_id),
            lifecycle_status: clone_opt_text(&self.lifecycle_status),
        }
    }
}

/// Summaries are listed most recently seen first, and by identifier among those seen at
/// the same instant.
impl Ranked for AgentSummary {
    open spec fn view_before(a: AgentSummaryView, b: AgentSummaryView) -> bool {
        a.last_seen_unix_ms > b.last_seen_unix_ms || (a.last_seen_unix_ms == b.last_seen_unix_ms
            && text_before(a.id, b.id))
    }

    fn before(&self, other: &Self) -> (r: bool) {
        self.last_seen_unix_ms > other.last_seen_unix_ms || (self.last_seen_unix_ms
            == other.last_seen_unix_ms && text_le(self.id.as_str(), other.id.as_str()))
    }

    proof fn before_total(a: AgentSummaryView, b: AgentSummaryView) {
        lemma_text_before_total(a.id, b.id);
    }

    proof fn before_transitive(a: AgentSummaryView, b: AgentSummaryView, c: AgentSummaryView) {
        if a.last_seen_unix_ms == b.last_seen_unix_ms && b.last_seen_unix_ms
            == c.last_seen_unix_ms {
            lemma_text_before_transitive(a.id, b.id, c.id);
        }
    }
}

/// What a report of an agent says.
#[derive(Debug, PartialEq, Eq)]
pub struct AgentReport {
    pub id: String,
    pub hostname: String,
    pub cpu_percent_bits: u64,
    pub memory_used_bytes: u64,
    pub tenant_id: Option<String>,
    pub project_id: Option<String>,
    pub lifecycle_status: Option<String>,
    /// When the agent was seen, where the report says so; zero counts as unsaid.
    pub last_seen_override: Option<u64>,
}

/// The mathematical value of an [`AgentReport`].
pub struct AgentReportView {
    pub id: Seq<char>,
    pub hostname: Seq<char>,
    pub cpu_percent_bits: u64,
    pub memory_used_bytes: u64,
    pub tenant_id: Option<Seq<char>>,
    pub project_id: Option<Seq<char>>,
    pub lifecycle_status: Option<Seq<char>>,
    pub last_seen_override: Option<u64>,
}

impl DeepView for AgentReport {
    type V = AgentReportView;

    open spec fn deep_view(&self) -> AgentReportView {
        AgentReportView {
            id: self.id@,
            hostname: self.hostname@,
            cpu_percent_bits: self.cpu_percent_bits,
            memory_used_bytes: self.memory_used_bytes,
            tenant_id: self.tenant_id.deep_view(),
            project_id: self.project_id.deep_view(),
            lifecycle_status: self.lifecycle_status.deep_view(),
            last_seen_override: self.last_seen_override,
        }
    }
}

/// What is said, or what was known where nothing is said.
pub open spec fn said_or<T>(said: Option<T>, known: Option<T>) -> Option<T> {
    if said is Some {
        said
    } else {
        known
    }
}

/// When a report counts as seen: when it says, unless it says nothing or zero; then at
/// `now`.
pub open spec fn seen_at(report: AgentReportView, now: u64) -> u64 {
    match report.last_seen_override {
        Some(at) => if at > 0 {
            at
        } else {
            now
        },
        None => now,
    }
}

/// What is known of an agent after a report at `now`: load, memory, hostname and the
/// instant are those of the report; tenant, project and lifecycle status are those of the
/// report where it names them, and stay otherwise.
pub open spec fn merged(known: Option<AgentSummaryView>, report: AgentReportView, now: u64)
    -> AgentSummaryView {
    AgentSummaryView {
        id: report.id,
        hostname: report.hostname,
        last_seen_unix_ms: seen_at(report, now),
        cpu_percent_bits: report.cpu_percent_bits,
        memory_used_bytes: report.memory_used_bytes,
        tenant_id: match known {
            Some(agent) => said_or(report.tenant_id, agent.tenant_id),
            None => report.tenant_id,
        },
        project_id: match known {
            Some(agent) => said_or(report.project_id, agent.project_id),
            None => report.project_id,
        },
        lifecycle_status: match known {
            Some(agent) => said_or(report.lifecycle_status, agent.lifecycle_status),
            None => report.lifecycle_status,
        },
    }
}

/// The identifiers of summaries, in order.
pub open spec fn summary_ids(agents: Seq<AgentSummaryView>) -> Seq<Seq<char>> {
    Seq::new(agents.len(), |i: int| agents[i].id)
}

/// The agents after a report at `now`: the summary of the agent is the merged one, in
/// its old place or at the end if the agent was unknown.
pub open spec fn reported(agents: Seq<AgentSummaryView>, report: AgentReportView, now: u64)
    -> Seq<AgentSummaryView> {
    let at = text_position(summary_ids(agents), report.id);
    if 0 <= at < agents.len() {
        agents.update(at, merged(Some(agents[at]), report, now))
    } else {
        agents.push(merged(None, report, now))
    }
}

/// The order of identifiers alone.
pub struct ById {
    pub summary: AgentSummary,
}

impl DeepView for ById {
    type V = AgentSummaryView;

    open spec fn deep_view(&self) -> AgentSummaryView {
        self.summary.deep_view()
    }
}

impl Ranked for ById {
    open spec fn view_before(a: AgentSummaryView, b: AgentSummaryView) -> bool {
        text_before(a.id, b.id)
    }

    fn before(&self, other: &Self) -> (r: bool) {
        text_le(self.summary.id.as_str(), other.summary.id.as_str())
    }

    proof fn before_total(a: AgentSummaryView, b: AgentSummaryView) {
        lemma_text_before_total(a.id, b.id);
    }

    proof fn before_transitive(a: AgentSummaryView, b: AgentSummaryView, c: AgentSummaryView) {
        lemma_text_before_transitive(a.id, b.id, c.id);
    }
}

/// An instant as a count of milliseconds since the epoch, none before it.
pub fn epoch_millis(at: Timestamp) -> (ms: u64)
    ensures
        ms == if at < 0 {
            0
        } else {
            at as int
        },
{
    if at < 0 {
        0
    } else {
        at as u64
    }
}

/// The agents a gateway has heard of.
pub struct AgentRegistry {
    ids: Vec<String>,
    agents: Vec<AgentSummary>,
}

impl View for AgentRegistry {
    type V = Seq<AgentSummaryView>;

    closed spec fn view(&self) -> Seq<AgentSummaryView> {
        self.agents.deep_view()
    }
}

impl AgentRegistry {
    /// Whether the registry is well formed.
    pub closed spec fn wf(&self) -> bool {
        self.ids.deep_view() == summary_ids(self.agents.deep_view())
    }

    /// A registry that has heard of no agent.
    pub fn new() -> (registry: Self)
        ensures
            registry.wf(),
            registry@ == Seq::<AgentSummaryView>::empty(),
    {
        let registry = AgentRegistry { ids: Vec::new(), agents: Vec::new() };
        assert(registry.agents.deep_view() =~= Seq::empty());
        assert(registry.ids.deep_view() =~= summary_ids(registry.agents.deep_view()));
        registry
    }

    /// Takes note of what is heard of an agent now: its hostname, its processor load as
    /// the bits of a 64-bit floating-point number, its memory in use, and, where they are
    /// named, its tenant, its project, its lifecycle status and the instant it was seen.
    pub fn upsert(
        &mut self,
        id: String,
        hostname: String,
        cpu_percent_bits: u64,
        mem: u64,
        tenant_id: Option<String>,
        project_id: Option<String>,
        lifecycle_status: Option<String>,
        last_seen_override: Option<u64>,
    )
        requires
            old(self).wf(),
        ensures
            final(self).wf(),
            exists|now: u64|
                final(self)@ == #[trigger] reported(
                    old(self)@,
                    AgentReportView {
                        id: id@,
                        hostname: hostname@,
                        cpu_percent_bits,
                        memory_used_bytes: mem,
                        tenant_id: tenant_id.deep_view(),
                        project_id: project_id.deep_view(),
                        lifecycle_status: lifecycle_status.deep_view(),
                        last_seen_override,
                    },
                    now,
                ),
    {
        let now = epoch_millis(now_millis());
        let report = AgentReport {
            id,
            hostname,
            cpu_percent_bits,
            memory_used_bytes: mem,
            tenant_id,
            project_id,
            lifecycle_status,
            last_seen_override,
        };
        self.upsert_at(report, now)
    }

    /// Takes note of a report of an agent at `now`, in milliseconds since the epoch.
    pub fn upsert_at(&mut self, report: AgentReport, now: u64)
        requires
            old(self).wf(),
        ensures
            final(self).wf(),
            final(self)@ == reported(old(self)@, report.deep_view(), now),
    {
        let last_seen = match report.last_seen_override {
            Some(at) => if at > 0 {
                at
            } else {
                now
            },
            None => now,
        };
        let ghost before = self.agents.deep_view();
        proof {
            lemma_text_position(self.ids.deep_view(), report.id@);
        }
        match find_text(&self.ids, report.id.as_str()) {
            Some(at) => {
                assert(self.ids.deep_view().len() == self.agents@.len());
                assert(before[at as int] == self.agents@[at as int].deep_view());
                let known = &self.agents[at];
                let merged = AgentSummary {
                    id: report.id,
                    hostname: report.hostname,
                    last_seen_unix_ms: last_seen,
                    cpu_percent_bits: report.cpu_percent_bits,
                    memory_used_bytes: report.memory_used_bytes,
                    tenant_id: match report.tenant_id {
                        Some(tenant) => Some(tenant),
                        None => clone_opt_text(&known.tenant_id),
                    },
                    project_id: match report.project_id {
                        Some(project) => Some(project),
                        None => clone_opt_text(&known.project_id),
                    },
                    lifecycle_status: match report.lifecycle_status {
                        Some(status) => Some(status),
                        None => clone_opt_text(&known.lifecycle_status),
                    },
                };
                proof {
                    assert(self.ids.deep_view()[at as int] == merged.id@);
                }
                set_row(&mut self.agents, at, merged);
                proof {
                    assert(self.ids.deep_view() =~= summary_ids(self.agents.deep_view()));
                }
            },
            None => {
                assert(self.ids.deep_view().len() == self.agents@.len());
                let added = AgentSummary {
                    id: report.id,
                    hostname: report.hostname,
                    last_seen_unix_ms: last_seen,
                    cpu_percent_bits: report.cpu_percent_bits,
                    memory_used_bytes: report.memory_used_bytes,
                    tenant_id: report.tenant_id,
                    project_id: report.project_id,
                    lifecycle_status: report.lifecycle_status,
                };
                push_row(&mut self.ids, added.id.clone());
                push_row(&mut self.agents, added);
                proof {
                    assert(self.ids.deep_view() =~= summary_ids(self.agents.deep_view()));
                }
            },
        }
    }

    /// The agents, by identifier.
    pub fn list(&self) -> (listing: Vec<AgentSummary>)
        ensures
            listing.deep_view() == arranged::<ById>(self@),
    {
        let mut sorted: Vec<ById> = Vec::new();
        let mut i: usize = 0;
        assert(self.agents.deep_view().take(0) =~= Seq::empty());
        assert(sorted.deep_view() =~= Seq::empty());
        while i < self.agents.len()
            invariant
                i <= self.agents.len(),
                sorted.deep_view() == arranged::<ById>(self.agents.deep_view().take(i as int)),
            decreases self.agents.len() - i,
        {
            proof {
                let views = self.agents.deep_view();
                assert(views.take(i + 1).drop_last() =~= views.take(i as int));
                assert(views.take(i + 1).last() == self.agents@[i as int].deep_view());
            }
            insert_ranked(&mut sorted, ById { summary: self.agents[i].clone() });
            i = i + 1;
        }
        assert(self.agents.deep_view().take(self.agents.len() as int) =~= self.agents.deep_view());
        let mut listing: Vec<AgentSummary> = Vec::new();
        let mut k: usize = 0;
        assert(listing.deep_view() =~= sorted.deep_view().take(0));
        while k < sorted.len()
            invariant
                k <= sorted.len(),
                listing.deep_view() == sorted.deep_view().take(k as int),
            decreases sorted.len() - k,
        {
            let ghost so_far = listing.deep_view();
            push_row(&mut listing, sorted[k].summary.clone());
            assert(sorted.deep_view()[k as int] == sorted@[k as int].deep_view());
            assert(sorted.deep_view().take(k + 1) =~= so_far.push(sorted.deep_view()[k as int]));
            k = k + 1;
        }
        assert(sorted.deep_view().take(sorted.len() as int) =~= sorted.deep_view());
        listing
    }
}

/// What a listing of agents asks for.
#[derive(Debug, PartialEq, Eq)]
pub struct ListAgentsParams {
    /// A fragment of the hostname, in any case.
    pub hostname: Option<String>,
    /// A presence (`active`, `stale`, `offline`); any other text is read as a lifecycle
    /// status where none is given.
    pub status: Option<String>,
    pub lifecycle_status: Option<String>,
    pub tenant_id: Option<String>,
    pub project_id: Option<String>,
    /// The earliest instant last seen, in milliseconds since the epoch.
    pub last_seen_after: Option<i64>,
    /// The latest instant last seen, in milliseconds since the epoch.
    pub last_seen_before: Option<i64>,
    pub limit: Option<u32>,
    pub offset: Option<u32>,
}

/// The mathematical value of [`ListAgentsParams`].
pub struct ListAgentsParamsView {
    pub hostname: Option<Seq<char>>,
    pub status: Option<Seq<char>>,
    pub lifecycle_status: Option<Seq<char>>,
    pub tenant_id: Option<Seq<char>>,
    pub project_id: Option<Seq<char>>,
    pub last_seen_after: Option<i64>,
    pub last_seen_before: Option<i64>,
    pub limit: Option<u32>,
    pub offset: Option<u32>,
}

impl DeepView for ListAgentsParams {
    type V = ListAgentsParamsView;

    open spec fn deep_view(&self) -> ListAgentsParamsView {
        ListAgentsParamsView {
            hostname: self.hostname.deep_view(),
            status: self.status.deep_view(),
            lifecycle_status: self.lifecycle_status.deep_view(),
            tenant_id: self.tenant_id.deep_view(),
            project_id: self.project_id.deep_view(),
            last_seen_after: self.last_seen_after,
            last_seen_before: self.last_seen_before,
            limit: self.limit,
            offset: self.offset,
        }
    }
}

/// The parameters that ask for every agent.
pub open spec fn any_agent() -> ListAgentsParamsView {
    ListAgentsParamsView {
        hostname: None,
        status: None,
        lifecycle_status: None,
        tenant_id: None,
        project_id: None,
        last_seen_after: None,
        last_seen_before: None,
        limit: None,
        offset: None,
    }
}

impl Default for ListAgentsParams {
    fn default() -> (params: Self)
        ensures
            params.deep_view() == any_agent(),
    {
        ListAgentsParams {
            hostname: None,
            status: None,
            lifecycle_status: None,
            tenant_id: None,
            project_id: None,
            last_seen_after: None,
            last_seen_before: None,
            limit: None,
            offset: None,
        }
    }
}

/// What a listing asks of each agent: the parameters with their texts in lower case
/// and their status told apart.
pub struct AgentCriteria {
    pub hostname: Option<String>,
    pub presence: Option<AgentPresenceFilter>,
    pub lifecycle: Option<String>,
    pub tenant: Option<String>,
    pub project: Option<String>,
    pub seen_from: Option<u64>,
    pub seen_until: Option<u64>,
}

/// The mathematical value of [`AgentCriteria`].
pub struct AgentCriteriaView {
    pub hostname: Option<Seq<char>>,
    pub presence: Option<AgentPresenceFilter>,
    pub lifecycle: Option<Seq<char>>,
    pub tenant: Option<Seq<char>>,
    pub project: Option<Seq<char>>,
    pub seen_from: Option<u64>,
    pub seen_until: Option<u64>,
}

impl DeepView for AgentCriteria {
    type V = AgentCriteriaView;

    open spec fn deep_view(&self) -> AgentCriteriaView {
        AgentCriteriaView {
            hostname: self.hostname.deep_view(),
            presence: self.presence,
            lifecycle: self.lifecycle.deep_view(),
            tenant: self.tenant.deep_view(),
            project: self.project.deep_view(),
            seen_from: self.seen_from,
            seen_until: self.seen_until,
        }
    }
}

/// A text in lower case, where there is one.
pub open spec fn opt_lowered(text: Option<Seq<char>>) -> Option<Seq<char>> {
    match text {
        Some(t) => Some(lowered(t)),
        None => None,
    }
}

/// An instant as a count of milliseconds, none before the epoch.
pub open spec fn opt_floor(at: Option<i64>) -> Option<u64> {
    match at {
        Some(ms) => Some(
            if ms < 0 {
                0u64
            } else {
                ms as u64
            },
        ),
        None => None,
    }
}

/// The presence that the parameters name.
pub open spec fn presence_asked(params: ListAgentsParamsView) -> Option<AgentPresenceFilter> {
    match params.status {
        Some(name) => presence_of(name),
        None => None,
    }
}

/// What the parameters ask of each agent. A status that names no presence is taken for
/// the lifecycle status, unless the parameters give one.
pub open spec fn criteria(params: ListAgentsParamsView) -> AgentCriteriaView {
    AgentCriteriaView {
        hostname: opt_lowered(params.hostname),
        presence: presence_asked(params),
        lifecycle: if params.lifecycle_status is Some {
            opt_lowered(params.lifecycle_status)
        } else if presence_asked(params) is None {
            opt_lowered(params.status)
        } else {
            None
        },
        tenant: opt_lowered(params.tenant_id),
        project: opt_lowered(params.project_id),
        seen_from: opt_floor(params.last_seen_after),
        seen_until: opt_floor(params.last_seen_before),
    }
}

/// When an agent was last seen, given whether `chrono` can hold the instant: never for
/// zero, for a count beyond the range of `i64`, and for an instant that it cannot hold.
pub open spec fn sighting(last_seen_unix_ms: u64, held: bool) -> Option<Timestamp> {
    if last_seen_unix_ms == 0 || last_seen_unix_ms > i64::MAX || !held {
        None
    } else {
        Some(last_seen_unix_ms as i64)
    }
}

/// When an agent was last seen.
pub open spec fn last_seen_instant(last_seen_unix_ms: u64) -> Option<Timestamp> {
    sighting(
        last_seen_unix_ms,
        last_seen_unix_ms <= i64::MAX && chrono_holds(last_seen_unix_ms as i64),
    )
}

/// Whether an optional text of an agent is the wanted one, whatever the case of its
/// letters. An agent without the text never matches.
pub open spec fn names(value: Option<Seq<char>>, wanted: Seq<char>) -> bool {
    value is Some && lowered(value->0) == wanted
}

/// Whether an agent meets the criteria at `now`, its presence judged by `seen`.
pub open spec fn agent_meets_seen(
    agent: AgentSummaryView,
    asked: AgentCriteriaView,
    seen: Option<Timestamp>,
    now: Timestamp,
) -> bool {
    &&& asked.hostname is Some ==> has_fragment(lowered(agent.hostname), asked.hostname->0)
    &&& asked.tenant is Some ==> names(agent.tenant_id, asked.tenant->0)
    &&& asked.project is Some ==> names(agent.project_id, asked.project->0)
    &&& asked.lifecycle is Some ==> names(agent.lifecycle_status, asked.lifecycle->0)
    &&& asked.seen_from is Some ==> agent.last_seen_unix_ms >= asked.seen_from->0
    &&& asked.seen_until is Some ==> agent.last_seen_unix_ms <= asked.seen_until->0
    &&& asked.presence is Some ==> has_presence(asked.presence->0, seen, now)
}

/// Whether an agent meets the criteria at `now`.
pub open spec fn agent_matches(agent: AgentSummaryView, asked: AgentCriteriaView, now: Timestamp)
    -> bool {
    agent_meets_seen(agent, asked, last_seen_instant(agent.last_seen_unix_ms), now)
}

/// The agents that meet the criteria at `now`, in their order.
pub open spec fn selected(agents: Seq<AgentSummaryView>, asked: AgentCriteriaView, now: Timestamp)
    -> Seq<AgentSummaryView>
    decreases agents.len(),
{
    if agents.len() == 0 {
        Seq::empty()
    } else {
        let earlier = selected(agents.drop_last(), asked, now);
        if agent_matches(agents.last(), asked, now) {
            earlier.push(agents.last())
        } else {
            earlier
        }
    }
}

/// The listing that the parameters ask for at `now`: the agents that meet them, the
/// most recently seen first and by identifier among those seen at the same instant, cut
/// down to the page.
pub open spec fn filtered(
    agents: Seq<AgentSummaryView>,
    params: ListAgentsParamsView,
    now: Timestamp,
) -> Seq<AgentSummaryView> {
    page(
        arranged::<AgentSummary>(selected(agents, criteria(params), now)),
        params.offset,
        params.limit,
    )
}

/// A text in lower case, where there is one.
fn lower_opt(text: &Option<String>) -> (lower: Option<String>)
    ensures
        lower.deep_view() == opt_lowered(text.deep_view()),
{
    match text {
        Some(t) => Some(to_ascii_lower(t.as_str())),
        None => None,
    }
}

/// An instant as a count of milliseconds, none before the epoch.
fn floor_opt(at: Option<i64>) -> (floor: Option<u64>)
    ensures
        floor == opt_floor(at),
{
    match at {
        Some(ms) => Some(
            if ms < 0 {
                0
            } else {
                ms as u64
            },
        ),
        None => None,
    }
}

/// Whether an optional text of an agent is the wanted one, whatever the case of its
/// letters.
fn names_text(value: &Option<String>, wanted: &str) -> (r: bool)
    ensures
        r == names(value.deep_view(), wanted@),
{
    match value {
        Some(v) => {
            let lower = to_ascii_lower(v.as_str());
            same_text(lower.as_str(), wanted)
        },
        None => false,
    }
}

/// Reads the criteria out of the parameters of a listing.
pub fn agent_criteria(params: &ListAgentsParams) -> (asked: AgentCriteria)
    ensures
        asked.deep_view() == criteria(params.deep_view()),
{
    let presence = match &params.status {
        Some(name) => AgentPresenceFilter::parse(name.as_str()),
        None => None,
    };
    let lifecycle = if params.lifecycle_status.is_some() {
        lower_opt(&params.lifecycle_status)
    } else if presence.is_none() {
        lower_opt(&params.status)
    } else {
        None
    };
    AgentCriteria {
        hostname: lower_opt(&params.hostname),
        presence,
        lifecycle,
        tenant: lower_opt(&params.tenant_id),
        project: lower_opt(&params.project_id),
        seen_from: floor_opt(params.last_seen_after),
        seen_until: floor_opt(params.last_seen_before),
    }
}

/// When an agent was last seen, given whether `chrono` can hold the instant.
pub fn sighting_of(last_seen_unix_ms: u64, held: bool) -> (seen: Option<Timestamp>)
    ensures
        seen == sighting(last_seen_unix_ms, held),
{
    if last_seen_unix_ms == 0 || last_seen_unix_ms > i64::MAX as u64 || !held {
        None
    } else {
        Some(last_seen_unix_ms as i64)
    }
}

/// When an agent was last seen.
pub fn agent_last_seen(agent: &AgentSummary) -> (seen: Option<Timestamp>)
    ensures
        seen == last_seen_instant(agent.last_seen_unix_ms),
{
    if agent.last_seen_unix_ms > i64::MAX as u64 {
        None
    } else {
        sighting_of(agent.last_seen_unix_ms, instant_in_range(agent.last_seen_unix_ms as i64))
    }
}

/// Whether an agent last seen at `seen` meets the criteria at `now`.
pub fn agent_meets(
    agent: &AgentSummary,
    asked: &AgentCriteria,
    seen: Option<Timestamp>,
    now: Timestamp,
) -> (r: bool)
    ensures
        r == agent_meets_seen(agent.deep_view(), asked.deep_view(), seen, now),
{
    if let Some(hostname) = &asked.hostname {
        let lower = to_ascii_lower(agent.hostname.as_str());
        if !contains_fragment(lower.as_str(), hostname.as_str()) {
            return false;
        }
    }
    if let Some(tenant) = &asked.tenant {
        if !names_text(&agent.tenant_id, tenant.as_str()) {
            return false;
        }
    }
    if let Some(project) = &asked.project {
        if !names_text(&agent.project_id, project.as_str()) {
            return false;
        }
    }
    if let Some(lifecycle) = &asked.lifecycle {
        if !names_text(&agent.lifecycle_status, lifecycle.as_str()) {
            return false;
        }
    }
    if let Some(from) = asked.seen_from {
        if agent.last_seen_unix_ms < from {
            return false;
        }
    }
    if let Some(until) = asked.seen_until {
        if agent.last_seen_unix_ms > until {
            return false;
        }
    }
    if let Some(presence) = asked.presence {
        if !presence.matches(seen, now) {
            return false;
        }
    }
    true
}

/// The listing of the agents that the parameters ask for at `now`.
pub fn filter_agent_summaries_at(
    agents: Vec<AgentSummary>,
    params: &ListAgentsParams,
    now: Timestamp,
) -> (listing: Vec<AgentSummary>)
    ensures
        listing.deep_view() == filtered(agents.deep_view(), params.deep_view(), now),
{
    let asked = agent_criteria(params);
    let mut chosen: Vec<AgentSummary> = Vec::new();
    let mut i: usize = 0;
    assert(agents.deep_view().take(0) =~= Seq::empty());
    assert(chosen.deep_view() =~= Seq::empty());
    while i < agents.len()
        invariant
            i <= agents.len(),
            chosen.deep_view() == arranged::<AgentSummary>(
                selected(agents.deep_view().take(i as int), asked.deep_view(), now),
            ),
        decreases agents.len() - i,
    {
        proof {
            let views = agents.deep_view();
            assert(views.take(i + 1).drop_last() =~= views.take(i as int));
            assert(views.take(i + 1).last() == agents@[i as int].deep_view());
            let kept = selected(views.take(i as int), asked.deep_view(), now);
            assert(kept.push(views[i as int]).drop_last() =~= kept);
        }
        let seen = agent_last_seen(&agents[i]);
        if agent_meets(&agents[i], &asked, seen, now) {
            insert_ranked(&mut chosen, agents[i].clone());
        }
        i = i + 1;
    }
    assert(agents.deep_view().take(agents.len() as int) =~= agents.deep_view());
    page_rows(chosen, params.offset, params.limit)
}

/// The listing of the agents that the parameters ask for now.
pub fn filter_agent_summaries(
    agents: Vec<AgentSummary>,
    params: &ListAgentsParams,
) -> (listing: Vec<AgentSummary>)
    ensures
        exists|now: Timestamp|
            listing.deep_view() == filtered(agents.deep_view(), params.deep_view(), now),
{
    let now = now_millis();
    filter_agent_summaries_at(agents, params, now)
}

/// Why a request of an agent is refused.
#[derive(Debug, Clone, Copy, PartialEq, Eq)]
pub enum ControlError {
    /// The request is malformed.
    InvalidArgument(&'static str),
}

/// What an agent says when it registers.
#[derive(Debug, PartialEq, Eq)]
pub struct RegisterAgentRequest {
    /// The identifier the agent goes by; empty where it asks for one.
    pub node_id: String,
    pub hostname: String,
    pub os: String,
    pub arch: String,
    pub cpu_cores: u32,
    pub memory_bytes: u64,
    /// The identifier of its tenant as a text; blank where it names none.
    pub tenant_id: String,
    /// The identifier of its project as a text; blank where it names none.
    pub project_id: String,
}

/// The mathematical value of a [`RegisterAgentRequest`].
pub struct RegisterAgentRequestView {
    pub node_id: Seq<char>,
    pub hostname: Seq<char>,
    pub os: Seq<char>,
    pub arch: Seq<char>,
    pub cpu_cores: u32,
    pub memory_bytes: u64,
    pub tenant_id: Seq<char>,
    pub project_id: Seq<char>,
}

impl DeepView for RegisterAgentRequest {
    type V = RegisterAgentRequestView;

    open spec fn deep_view(&self) -> RegisterAgentRequestView {
        RegisterAgentRequestView {
            node_id: self.node_id@,
            hostname: self.hostname@,
            os: self.os@,
            arch: self.arch@,
            cpu_cores: self.cpu_cores,
            memory_bytes: self.memory_bytes,
            tenant_id: self.tenant_id@,
            project_id: self.project_id@,
        }
    }
}

/// What a registered agent is told.
#[derive(Debug, PartialEq, Eq)]
pub struct RegisterAgentResponse {
    pub assigned_id: String,
    pub session_token: String,
    pub heartbeat_interval_seconds: u32,
}

/// The mathematical value of a [`RegisterAgentResponse`].
pub struct RegisterAgentResponseView {
    pub assigned_id: Seq<char>,
    pub session_token: Seq<char>,
    pub heartbeat_interval_seconds: u32,
}

impl DeepView for RegisterAgentResponse {
    type V = RegisterAgentResponseView;

    open spec fn deep_view(&self) -> RegisterAgentResponseView {
        RegisterAgentResponseView {
            assigned_id: self.assigned_id@,
            session_token: self.session_token@,
            heartbeat_interval_seconds: self.heartbeat_interval_seconds,
        }
    }
}

/// What an agent says with a heartbeat.
#[derive(Debug, Clone, Copy, PartialEq, Eq)]
pub struct HeartbeatRequest<'a> {
    pub assigned_id: &'a str,
    /// The processor load, as the bits of a 64-bit floating-point number.
    pub cpu_percent_bits: u64,
    pub memory_used_bytes: u64,
    /// When the heartbeat was sent, in milliseconds since the epoch; zero where the
    /// agent does not say.
    pub timestamp_unix_ms: u64,
}

/// What an agent is told after a heartbeat.
#[derive(Debug, Clone, Copy, PartialEq, Eq, Structural)]
pub struct HeartbeatResponse {
    pub ok: bool,
    pub rotate_credentials: bool,
}

/// The identifier that an optional text names: none for a blank text, and a refusal for
/// a text that is neither blank nor an identifier.
pub open spec fn optional_id(value: Seq<char>) -> Result<Option<u128>, ControlError> {
    if is_blank(value) {
        Ok(None)
    } else {
        match uuid_parse(value) {
            Some(id) => Ok(Some(id)),
            None => Err(ControlError::InvalidArgument("invalid uuid")),
        }
    }
}

/// The canonical text of an identifier, where there is one.
pub open spec fn optional_id_text(id: Option<u128>) -> Option<Seq<char>> {
    match id {
        Some(id) => Some(uuid_text(id)),
        None => None,
    }
}

/// The report that a registration amounts to: no load, no memory, the lifecycle status
/// `registered`, seen now.
pub open spec fn registration_report(
    request: RegisterAgentRequestView,
    tenant_id: Option<u128>,
    project_id: Option<u128>,
) -> AgentReportView {
    AgentReportView {
        id: request.node_id,
        hostname: request.hostname,
        cpu_percent_bits: 0,
        memory_used_bytes: 0,
        tenant_id: optional_id_text(tenant_id),
        project_id: optional_id_text(project_id),
        lifecycle_status: Some("registered"@),
        last_seen_override: None,
    }
}

/// What a registration at `now` does: a request whose tenant or project is neither
/// blank nor an identifier is refused and changes nothing; any other is taken note of,
/// and the agent goes by the identifier it gave, or by `drawn` where it gave none. The
/// control surface keeps no sessions: the token it hands back is a fixed text, and the
/// agent is to send a heartbeat every five seconds.
pub open spec fn register_agent_post(
    before: Seq<AgentSummaryView>,
    request: RegisterAgentRequestView,
    now: u64,
    drawn: u128,
    after: Seq<AgentSummaryView>,
    r: Result<RegisterAgentResponseView, ControlError>,
) -> bool {
    match optional_id(request.tenant_id) {
        Err(e) => r == Err::<RegisterAgentResponseView, ControlError>(e) && after == before,
        Ok(tenant_id) => match optional_id(request.project_id) {
            Err(e) => r == Err::<RegisterAgentResponseView, ControlError>(e) && after == before,
            Ok(project_id) => {
                &&& after == reported(
                    before,
                    registration_report(request, tenant_id, project_id),
                    now,
                )
                &&& r == Ok::<RegisterAgentResponseView, ControlError>(
                    RegisterAgentResponseView {
                        assigned_id: if request.node_id.len() == 0 {
                            uuid_text(drawn)
                        } else {
                            request.node_id
                        },
                        session_token: "session-placeholder"@,
                        heartbeat_interval_seconds: 5,
                    },
                )
            },
        },
    }
}

/// The report that a heartbeat amounts to: the load and the memory it says, an unknown
/// hostname, the lifecycle status `active`, seen when it says.
pub open spec fn heartbeat_report(heartbeat: HeartbeatRequest) -> AgentReportView {
    AgentReportView {
        id: heartbeat.assigned_id@,
        hostname: "unknown"@,
        cpu_percent_bits: heartbeat.cpu_percent_bits,
        memory_used_bytes: heartbeat.memory_used_bytes,
        tenant_id: None,
        project_id: None,
        lifecycle_status: Some("active"@),
        last_seen_override: if heartbeat.timestamp_unix_ms > 0 {
            Some(heartbeat.timestamp_unix_ms)
        } else {
            None
        },
    }
}

/// The identifier that an optional text names.
pub fn parse_uuid_opt(value: &str) -> (r: Result<Option<u128>, ControlError>)
    ensures
        r == optional_id(value@),
{
    if blank(value) {
        return Ok(None);
    }
    match parse_id(value) {
        Some(id) => Ok(Some(id)),
        None => Err(ControlError::InvalidArgument("invalid uuid")),
    }
}

/// The canonical text of an identifier, where there is one.
fn id_text_opt(id: Option<u128>) -> (text: Option<String>)
    ensures
        text.deep_view() == optional_id_text(id),
{
    match id {
        Some(id) => Some(id_text(id)),
        None => None,
    }
}

/// The control surface of a gateway towards its agents, over the agents it has heard of.
pub struct InMemoryAgentControl {
    pub registry: AgentRegistry,
}

impl InMemoryAgentControl {
    /// A control surface over a registry.
    pub fn new(registry: AgentRegistry) -> (control: Self)
        ensures
            control.registry == registry,
    {
        InMemoryAgentControl { registry }
    }

    /// Registers an agent at `now`, in milliseconds since the epoch; `drawn` is the
    /// identifier it goes by where it gave none.
    pub fn register_agent_with(
        &mut self,
        request: RegisterAgentRequest,
        now: u64,
        drawn: u128,
    ) -> (r: Result<RegisterAgentResponse, ControlError>)
        requires
            old(self).registry.wf(),
        ensures
            final(self).registry.wf(),
            register_agent_post(
                old(self).registry@,
                request.deep_view(),
                now,
                drawn,
                final(self).registry@,
                control_view(r),
            ),
    {
        let tenant_id = match parse_uuid_opt(request.tenant_id.as_str()) {
            Ok(id) => id,
            Err(e) => {
                return Err(e);
            },
        };
        let project_id = match parse_uuid_opt(request.project_id.as_str()) {
            Ok(id) => id,
            Err(e) => {
                return Err(e);
            },
        };
        let report = AgentReport {
            id: request.node_id.clone(),
            hostname: request.hostname,
            cpu_percent_bits: 0,
            memory_used_bytes: 0,
            tenant_id: id_text_opt(tenant_id),
            project_id: id_text_opt(project_id),
            lifecycle_status: Some(String::from_str("registered")),
            last_seen_override: None,
        };
        self.registry.upsert_at(report, now);
        let assigned_id = if request.node_id.as_str().unicode_len() == 0 {
            id_text(drawn)
        } else {
            request.node_id
        };
        Ok(
            RegisterAgentResponse {
                assigned_id,
                session_token: String::from_str("session-placeholder"),
                heartbeat_interval_seconds: 5,
            },
        )
    }

    /// Registers an agent now.
    pub fn register_agent(&mut self, request: RegisterAgentRequest) -> (r: Result<
        RegisterAgentResponse,
        ControlError,
    >)
        requires
            old(self).registry.wf(),
        ensures
            final(self).registry.wf(),
            exists|now: u64, drawn: u128|
                register_agent_post(
                    old(self).registry@,
                    request.deep_view(),
                    now,
                    drawn,
                    final(self).registry@,
                    control_view(r),
                ),
    {
        let now = epoch_millis(now_millis());
        let drawn = random_id();
        self.register_agent_with(request, now, drawn)
    }

    /// Takes note of a heartbeat at `now`, in milliseconds since the epoch.
    pub fn heartbeat_at(&mut self, heartbeat: HeartbeatRequest, now: u64) -> (response:
        HeartbeatResponse)
        requires
            old(self).registry.wf(),
        ensures
            final(self).registry.wf(),
            final(self).registry@ == reported(old(self).registry@, heartbeat_report(heartbeat), now),
            response == (HeartbeatResponse { ok: true, rotate_credentials: false }),
    {
        let last_seen_override = if heartbeat.timestamp_unix_ms > 0 {
            Some(heartbeat.timestamp_unix_ms)
        } else {
            None
        };
        let report = AgentReport {
            id: String::from_str(heartbeat.assigned_id),
            hostname: String::from_str("unknown"),
            cpu_percent_bits: heartbeat.cpu_percent_bits,
            memory_used_bytes: heartbeat.memory_used_bytes,
            tenant_id: None,
            project_id: None,
            lifecycle_status: Some(String::from_str("active")),
            last_seen_override,
        };
        self.registry.upsert_at(report, now);
        HeartbeatResponse { ok: true, rotate_credentials: false }
    }

    /// Takes note of a heartbeat now.
    pub fn heartbeat(&mut self, heartbeat: HeartbeatRequest) -> (response: HeartbeatResponse)
        requires
            old(self).registry.wf(),
        ensures
            final(self).registry.wf(),
            exists|now: u64|
                final(self).registry@ == reported(
                    old(self).registry@,
                    heartbeat_report(heartbeat),
                    now,
                ),
            response == (HeartbeatResponse { ok: true, rotate_credentials: false }),
    {
        let now = epoch_millis(now_millis());
        self.heartbeat_at(heartbeat, now)
    }
}

/// An answer with the mathematical value of what it hands back.
pub open spec fn control_view<T: DeepView>(r: Result<T, ControlError>) -> Result<T::V, ControlError> {
    match r {
        Ok(value) => Ok(value.deep_view()),
        Err(e) => Err(e),
    }
}

/// What a durable store of agents is asked for.
#[derive(Debug, PartialEq, Eq)]
pub struct AgentQuery {
    pub tenant_id: Option<u128>,
    pub project_id: Option<u128>,
    pub hostname_fragment: Option<String>,
    pub lifecycle_status: Option<String>,
    pub last_seen_after: Option<Timestamp>,
    pub last_seen_before: Option<Timestamp>,
    pub limit: Option<i64>,
    pub offset: Option<i64>,
}

/// The mathematical value of an [`AgentQuery`].
pub struct AgentQueryView {
    pub tenant_id: Option<u128>,
    pub project_id: Option<u128>,
    pub hostname_fragment: Option<Seq<char>>,
    pub lifecycle_status: Option<Seq<char>>,
    pub last_seen_after: Option<Timestamp>,
    pub last_seen_before: Option<Timestamp>,
    pub limit: Option<i64>,
    pub offset: Option<i64>,
}

impl DeepView for AgentQuery {
    type V = AgentQueryView;

    open spec fn deep_view(&self) -> AgentQueryView {
        AgentQueryView {
            tenant_id: self.tenant_id,
            project_id: self.project_id,
            hostname_fragment: self.hostname_fragment.deep_view(),
            lifecycle_status: self.lifecycle_status.deep_view(),
            last_seen_after: self.last_seen_after,
            last_seen_before: self.last_seen_before,
            limit: self.limit,
            offset: self.offset,
        }
    }
}

/// What a durable store of agents knows of an agent.
#[derive(Debug, PartialEq, Eq)]
pub struct AgentSummaryRecord {
    pub id: u128,
    pub hostname: String,
    pub tenant_id: Option<u128>,
    pub project_id: Option<u128>,
    pub lifecycle_status: Option<String>,
    pub last_seen: Option<Timestamp>,
    /// The processor load, as the bits of a 64-bit floating-point number.
    pub cpu_percent_bits: Option<u64>,
    pub memory_used_bytes: Option<i64>,
    pub metadata: AgentMetadata,
}

/// The mathematical value of an [`AgentSummaryRecord`].
pub struct AgentSummaryRecordView {
    pub id: u128,
    pub hostname: Seq<char>,
    pub tenant_id: Option<u128>,
    pub project_id: Option<u128>,
    pub lifecycle_status: Option<Seq<char>>,
    pub last_seen: Option<Timestamp>,
    pub cpu_percent_bits: Option<u64>,
    pub memory_used_bytes: Option<i64>,
    pub metadata: AgentMetadataView,
}

impl DeepView for AgentSummaryRecord {
    type V = AgentSummaryRecordView;

    open spec fn deep_view(&self) -> AgentSummaryRecordView {
        AgentSummaryRecordView {
            id: self.id,
            hostname: self.hostname@,
            tenant_id: self.tenant_id,
            project_id: self.project_id,
            lifecycle_status: self.lifecycle_status.deep_view(),
            last_seen: self.last_seen,
            cpu_percent_bits: self.cpu_percent_bits,
            memory_used_bytes: self.memory_used_bytes,
            metadata: self.metadata.deep_view(),
        }
    }
}

/// What a durable store of agents is told of an agent that registers.
#[derive(Debug, PartialEq, Eq)]
pub struct AgentUpsert {
    pub id: u128,
    pub hostname: String,
    pub os: Option<String>,
    pub arch: Option<String>,
    pub cpu_cores: Option<i32>,
    pub memory_bytes: Option<i64>,
    pub tenant_id: Option<u128>,
    pub project_id: Option<u128>,
    pub metadata: AgentMetadata,
    pub status: Option<AgentStatus>,
    pub last_seen: Option<Timestamp>,
}

/// The mathematical value of an [`AgentUpsert`].
pub struct AgentUpsertView {
    pub id: u128,
    pub hostname: Seq<char>,
    pub os: Option<Seq<char>>,
    pub arch: Option<Seq<char>>,
    pub cpu_cores: Option<i32>,
    pub memory_bytes: Option<i64>,
    pub tenant_id: Option<u128>,
    pub project_id: Option<u128>,
    pub metadata: AgentMetadataView,
    pub status: Option<AgentStatus>,
    pub last_seen: Option<Timestamp>,
}

impl DeepView for AgentUpsert {
    type V = AgentUpsertView;

    open spec fn deep_view(&self) -> AgentUpsertView {
        AgentUpsertView {
            id: self.id,
            hostname: self.hostname@,
            os: self.os.deep_view(),
            arch: self.arch.deep_view(),
            cpu_cores: self.cpu_cores,
            memory_bytes: self.memory_bytes,
            tenant_id: self.tenant_id,
            project_id: self.project_id,
            metadata: self.metadata.deep_view(),
            status: self.status,
            last_seen: self.last_seen,
        }
    }
}

/// What a durable store of agents is told of a heartbeat.
#[derive(Debug, Clone, Copy, PartialEq, Eq, Structural)]
pub struct AgentHeartbeatRecord {
    pub agent_id: u128,
    /// The processor load, as the bits of a 64-bit floating-point number.
    pub cpu_percent_bits: u64,
    pub memory_used_bytes: i64,
    pub timestamp: Timestamp,
}

/// The identifier that a parameter of a listing names: none where it is absent or
/// blank. The outer `None` stands for a text that is neither blank nor an identifier.
pub open spec fn asked_id(value: Option<Seq<char>>) -> Option<Option<u128>> {
    match value {
        None => Some(None),
        Some(text) => if is_blank(text) {
            Some(None)
        } else {
            match uuid_parse(text) {
                Some(id) => Some(Some(id)),
                None => None,
            }
        },
    }
}

/// The instant that a count of milliseconds stands for, where `chrono` can hold it.
pub open spec fn held_instant(ms: Option<i64>) -> Option<Timestamp> {
    match ms {
        Some(at) => if chrono_holds(at) {
            Some(at)
        } else {
            None
        },
        None => None,
    }
}

/// A count as a signed number.
pub open spec fn opt_signed(count: Option<u32>) -> Option<i64> {
    match count {
        Some(n) => Some(n as i64),
        None => None,
    }
}

/// The query that the parameters of a listing make of a durable store: a tenant or a
/// project that is neither blank nor an identifier is refused with 400.
pub open spec fn agent_query(params: ListAgentsParamsView) -> Result<AgentQueryView, HttpError> {
    match asked_id(params.tenant_id) {
        None => Err(HttpError { status: 400, message: "invalid tenant_id" }),
        Some(tenant_id) => match asked_id(params.project_id) {
            None => Err(HttpError { status: 400, message: "invalid project_id" }),
            Some(project_id) => Ok(
                AgentQueryView {
                    tenant_id,
                    project_id,
                    hostname_fragment: params.hostname,
                    lifecycle_status: opt_lowered(params.lifecycle_status),
                    last_seen_after: held_instant(params.last_seen_after),
                    last_seen_before: held_instant(params.last_seen_before),
                    limit: opt_signed(params.limit),
                    offset: opt_signed(params.offset),
                },
            ),
        },
    }
}

/// The identifier that a parameter of a listing names.
fn id_asked(value: &Option<String>) -> (id: Option<Option<u128>>)
    ensures
        id == asked_id(value.deep_view()),
{
    match value {
        None => Some(None),
        Some(text) => {
            if blank(text.as_str()) {
                Some(None)
            } else {
                match parse_id(text.as_str()) {
                    Some(id) => Some(Some(id)),
                    None => None,
                }
            }
        },
    }
}

/// The instant that a count of milliseconds stands for, where `chrono` can hold it.
fn instant_held(ms: Option<i64>) -> (at: Option<Timestamp>)
    ensures
        at == held_instant(ms),
{
    match ms {
        Some(at) => if instant_in_range(at) {
            Some(at)
        } else {
            None
        },
        None => None,
    }
}

/// A count as a signed number.
fn signed_opt(count: Option<u32>) -> (n: Option<i64>)
    ensures
        n == opt_signed(count),
{
    match count {
        Some(n) => Some(n as i64),
        None => None,
    }
}

/// Makes the query of a durable store out of the parameters of a listing.
pub fn build_agent_query(params: &ListAgentsParams) -> (r: Result<AgentQuery, HttpError>)
    ensures
        answer_view(r) == agent_query(params.deep_view()),
{
    let tenant_id = match id_asked(&params.tenant_id) {
        Some(id) => id,
        None => {
            return Err(HttpError::new(400, "invalid tenant_id"));
        },
    };
    let project_id = match id_asked(&params.project_id) {
        Some(id) => id,
        None => {
            return Err(HttpError::new(400, "invalid project_id"));
        },
    };
    Ok(
        AgentQuery {
            tenant_id,
            project_id,
            hostname_fragment: clone_opt_text(&params.hostname),
            lifecycle_status: lower_opt(&params.lifecycle_status),
            last_seen_after: instant_held(params.last_seen_after),
            last_seen_before: instant_held(params.last_seen_before),
            limit: signed_opt(params.limit),
            offset: signed_opt(params.offset),
        },
    )
}

/// A signed count as a count, none below zero.
pub open spec fn floor_count(n: i64) -> u64 {
    if n < 0 {
        0
    } else {
        n as u64
    }
}

/// The summary of what a durable store knows of an agent: never seen where the store
/// has no instant, without load and memory where it has none.
pub open spec fn record_summary(record: AgentSummaryRecordView) -> AgentSummaryView {
    AgentSummaryView {
        id: uuid_text(record.id),
        hostname: record.hostname,
        last_seen_unix_ms: match record.last_seen {
            Some(at) => floor_count(at),
            None => 0,
        },
        cpu_percent_bits: match record.cpu_percent_bits {
            Some(bits) => bits,
            None => 0,
        },
        memory_used_bytes: match record.memory_used_bytes {
            Some(bytes) => floor_count(bytes),
            None => 0,
        },
        tenant_id: optional_id_text(record.tenant_id),
        project_id: optional_id_text(record.project_id),
        lifecycle_status: record.lifecycle_status,
    }
}

/// A signed count as a count, none below zero.
fn count_floor(n: i64) -> (count: u64)
    ensures
        count == floor_count(n),
{
    if n < 0 {
        0
    } else {
        n as u64
    }
}

/// The summary of what a durable store knows of an agent.
fn summary_of(record: &AgentSummaryRecord) -> (summary: AgentSummary)
    ensures
        summary.deep_view() == record_summary(record.deep_view()),
{
    AgentSummary {
        id: id_text(record.id),
        hostname: record.hostname.clone(),
        last_seen_unix_ms: match record.last_seen {
            Some(at) => count_floor(at),
            None => 0,
        },
        cpu_percent_bits: match record.cpu_percent_bits {
            Some(bits) => bits,
            None => 0,
        },
        memory_used_bytes: match record.memory_used_bytes {
            Some(bytes) => count_floor(bytes),
            None => 0,
        },
        tenant_id: id_text_opt(record.tenant_id),
        project_id: id_text_opt(record.project_id),
        lifecycle_status: clone_opt_text(&record.lifecycle_status),
    }
}

/// The summary of what a durable store knows of an agent.
pub fn map_agent_record(record: AgentSummaryRecord) -> (summary: AgentSummary)
    ensures
        summary.deep_view() == record_summary(record.deep_view()),
{
    summary_of(&record)
}

/// The summaries of what a durable store knows of agents, in order.
pub open spec fn record_summaries(records: Seq<AgentSummaryRecordView>) -> Seq<AgentSummaryView> {
    Seq::new(records.len(), |i: int| record_summary(records[i]))
}

/// The agents a listing goes over: those that a durable store answered with, or those
/// the gateway has heard of where there is no such answer.
pub open spec fn listed_from(
    stored: Option<Seq<AgentSummaryRecordView>>,
    known: Seq<AgentSummaryView>,
) -> Seq<AgentSummaryView> {
    match stored {
        Some(records) => record_summaries(records),
        None => known,
    }
}

/// The listing of agents that the parameters ask for at `now`, over what a durable
/// store answered with or, without such an answer, over what the gateway has heard of.
pub fn list_agents_at(
    stored: &Option<Vec<AgentSummaryRecord>>,
    known: Vec<AgentSummary>,
    params: &ListAgentsParams,
    now: Timestamp,
) -> (listing: Vec<AgentSummary>)
    ensures
        listing.deep_view() == filtered(
            listed_from(stored.deep_view(), known.deep_view()),
            params.deep_view(),
            now,
        ),
{
    match stored {
        Some(records) => {
            let mut mapped: Vec<AgentSummary> = Vec::new();
            let mut i: usize = 0;
            while i < records.len()
                invariant
                    i <= records.len(),
                    mapped@.len() == i,
                    forall|j: int|
                        0 <= j < i ==> (#[trigger] mapped@[j]).deep_view() == record_summary(
                            records@[j].deep_view(),
                        ),
                decreases records.len() - i,
            {
                mapped.push(summary_of(&records[i]));
                i = i + 1;
            }
            assert(mapped.deep_view() =~= record_summaries(records.deep_view()));
            filter_agent_summaries_at(mapped, params, now)
        },
        None => filter_agent_summaries_at(known, params, now),
    }
}

/// The listing of agents that the parameters ask for now.
pub fn list_agents(
    stored: &Option<Vec<AgentSummaryRecord>>,
    known: Vec<AgentSummary>,
    params: &ListAgentsParams,
) -> (listing: Vec<AgentSummary>)
    ensures
        exists|now: Timestamp|
            listing.deep_view() == filtered(
                listed_from(stored.deep_view(), known.deep_view()),
                params.deep_view(),
                now,
            ),
{
    let now = now_millis();
    list_agents_at(stored, known, params, now)
}

/// A count of 32 bits read as a signed number of 32 bits.
pub open spec fn as_signed_32(n: u32) -> i32 {
    if n <= i32::MAX {
        n as i32
    } else {
        (n - 0x1_0000_0000) as i32
    }
}

/// A count of 64 bits read as a signed number of 64 bits.
pub open spec fn as_signed_64(n: u64) -> i64 {
    if n <= i64::MAX {
        n as i64
    } else {
        (n - 0x1_0000_0000_0000_0000) as i64
    }
}

/// A count of 32 bits read as a signed number of 32 bits.
fn signed_32(n: u32) -> (r: i32)
    ensures
        r == as_signed_32(n),
{
    if n <= 0x7fff_ffff {
        n as i32
    } else {
        ((n - 0x8000_0000) as i64 - 0x8000_0000) as i32
    }
}

/// A count of 64 bits read as a signed number of 64 bits.
fn signed_64(n: u64) -> (r: i64)
    ensures
        r == as_signed_64(n),
{
    if n <= 0x7fff_ffff_ffff_ffff {
        n as i64
    } else {
        ((n - 0x8000_0000_0000_0000) as i128 - 0x8000_0000_0000_0000) as i64
    }
}

/// What a durable store is told of an agent that registers at `now`: nothing where the
/// agent does not go by an identifier.
pub open spec fn registration_upsert(
    request: RegisterAgentRequestView,
    tenant_id: Option<u128>,
    project_id: Option<u128>,
    now: Timestamp,
) -> Option<AgentUpsertView> {
    match uuid_parse(request.node_id) {
        Some(id) => Some(
            AgentUpsertView {
                id,
                hostname: request.hostname,
                os: Some(request.os),
                arch: Some(request.arch),
                cpu_cores: Some(as_signed_32(request.cpu_cores)),
                memory_bytes: Some(as_signed_64(request.memory_bytes)),
                tenant_id,
                project_id,
                metadata: no_metadata(),
                status: Some(AgentStatus::Registered),
                last_seen: Some(now),
            },
        ),
        None => None,
    }
}

/// What a durable store is told of an agent that registers at `now`, its tenant and
/// project read from the request.
pub open spec fn agent_upsert(request: RegisterAgentRequestView, now: Timestamp) -> Result<
    Option<AgentUpsertView>,
    ControlError,
> {
    match optional_id(request.tenant_id) {
        Err(e) => Err(e),
        Ok(tenant_id) => match optional_id(request.project_id) {
            Err(e) => Err(e),
            Ok(project_id) => Ok(registration_upsert(request, tenant_id, project_id, now)),
        },
    }
}

/// What a durable store is told of an agent that registers at `now`.
pub fn agent_upsert_at(request: &RegisterAgentRequest, now: Timestamp) -> (r: Result<
    Option<AgentUpsert>,
    ControlError,
>)
    ensures
        control_view(r) == agent_upsert(request.deep_view(), now),
{
    let tenant_id = match parse_uuid_opt(request.tenant_id.as_str()) {
        Ok(id) => id,
        Err(e) => {
            return Err(e);
        },
    };
    let project_id = match parse_uuid_opt(request.project_id.as_str()) {
        Ok(id) => id,
        Err(e) => {
            return Err(e);
        },
    };
    match parse_id(request.node_id.as_str()) {
        Some(id) => Ok(
            Some(
                AgentUpsert {
                    id,
                    hostname: request.hostname.clone(),
                    os: Some(request.os.clone()),
                    arch: Some(request.arch.clone()),
                    cpu_cores: Some(signed_32(request.cpu_cores)),
                    memory_bytes: Some(signed_64(request.memory_bytes)),
                    tenant_id,
                    project_id,
                    metadata: AgentMetadata::default(),
                    status: Some(AgentStatus::Registered),
                    last_seen: Some(now),
                },
            ),
        ),
        None => Ok(None),
    }
}

/// What a durable store is told of a heartbeat at `now`: nothing where the agent does
/// not go by an identifier. The heartbeat is dated when it says, or at `now` where
/// `chrono` cannot hold that instant.
pub open spec fn heartbeat_record(heartbeat: HeartbeatRequest, now: Timestamp) -> Option<
    AgentHeartbeatRecord,
> {
    match uuid_parse(heartbeat.assigned_id@) {
        Some(agent_id) => Some(
            AgentHeartbeatRecord {
                agent_id,
                cpu_percent_bits: heartbeat.cpu_percent_bits,
                memory_used_bytes: as_signed_64(heartbeat.memory_used_bytes),
                timestamp: if chrono_holds(as_signed_64(heartbeat.timestamp_unix_ms)) {
                    as_signed_64(heartbeat.timestamp_unix_ms)
                } else {
                    now
                },
            },
        ),
        None => None,
    }
}

/// What a durable store is told of a heartbeat at `now`.
pub fn heartbeat_record_at(heartbeat: HeartbeatRequest, now: Timestamp) -> (record: Option<
    AgentHeartbeatRecord,
>)
    ensures
        record == heartbeat_record(heartbeat, now),
{
    match parse_id(heartbeat.assigned_id) {
        Some(agent_id) => {
            let said = signed_64(heartbeat.timestamp_unix_ms);
            Some(
                AgentHeartbeatRecord {
                    agent_id,
                    cpu_percent_bits: heartbeat.cpu_percent_bits,
                    memory_used_bytes: signed_64(heartbeat.memory_used_bytes),
                    timestamp: if instant_in_range(said) {
                        said
                    } else {
                        now
                    },
                },
            )
        },
        None => None,
    }
}

} // verus!
