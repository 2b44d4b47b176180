//! GitHub REST records and the decisions made while fetching them: which pages
//! to read, which records to keep, and how they become domain records.
//! The requests themselves are made by the caller.
use vstd::prelude::*;

use crate::sorting::{rank_desc, ranked};
use crate::text::text_eq;
use crate::types::{
    valid_instant, Dataset, Deployment, DeploymentStatus, PullRequest,
    WorkflowRun,
};

verus! {

// ── Raw records, as the REST API returns them ───────────────────────────────
#[derive(Debug)]
pub struct RawPullRequest {
    pub number: u64,
    pub title: String,
    pub user: RawUser,
    pub created_at: i64,
    pub updated_at: i64,
    pub merged_at: Option<i64>,
    pub closed_at: Option<i64>,
    pub base: RawRef,
}

#[derive(Debug, Default)]
pub struct RawPrDetail {
    pub additions: u32,
    pub deletions: u32,
    pub changed_files: u32,
}

#[derive(Debug)]
pub struct RawUser {
    pub login: String,
}

#[derive(Debug)]
pub struct RawRef {
    pub ref_name: String,
}

#[derive(Debug)]
pub struct RawDeployment {
    pub id: u64,
    pub sha: String,
    pub environment: String,
    pub created_at: i64,
}

#[derive(Debug)]
pub struct RawDeploymentStatus {
    pub state: String,
}

#[derive(Debug)]
pub struct RawWorkflowRunsPage {
    pub workflow_runs: Vec<RawWorkflowRun>,
}

#[derive(Debug)]
pub struct RawWorkflowRun {
    pub id: u64,
    pub name: String,
    pub head_branch: String,
    pub conclusion: Option<String>,
    pub created_at: i64,
    pub updated_at: i64,
}

#[derive(Debug)]
pub struct RawRepo {
    pub name: String,
    pub pushed_at: Option<i64>,
}

// ── Limits ───────────────────────────────────────────────────────────────────
/// Repositories analysed when the owner's repositories are listed: the most
/// recently pushed ones.
pub const MAX_LISTED_REPOS: usize = 50;

/// Pages of closed pull requests read per repository (100 per page).
pub const MAX_PR_PAGES: u32 = 10;

// ── Pull requests ────────────────────────────────────────────────────────────
/// Position of the first pull request of the page last updated before `since`
/// (the page length when there is none).  Pages come most recently updated
/// first, so nothing from there on is in the window.
pub open spec fn cut_index(page: Seq<RawPullRequest>, since: int) -> int
    decreases page.len(),
{
    if page.len() == 0 {
        0
    } else if page[0].updated_at < since {
        0
    } else {
        1 + cut_index(page.drop_first(), since)
    }
}

/// Positions below `n` of the merged pull requests of the page, ascending.
pub open spec fn merged_positions(page: Seq<RawPullRequest>, n: int) -> Seq<usize>
    decreases n,
{
    if n <= 0 {
        Seq::empty()
    } else {
        let rest = merged_positions(page, n - 1);
        if page[n - 1].merged_at is Some {
            rest.push((n - 1) as usize)
        } else {
            rest
        }
    }
}

/// What a page of closed pull requests yields.
pub struct PageScan {
    /// Positions in the page of the merged pull requests to keep.
    pub keep: Vec<usize>,
    /// The page reached pull requests updated before the window: read no further.
    pub stop: bool,
}

proof fn lemma_cut_index(page: Seq<RawPullRequest>, since: int)
    ensures
        0 <= cut_index(page, since) <= page.len(),
        forall|j: int| 0 <= j < cut_index(page, since) ==> page[j].updated_at >= since,
        cut_index(page, since) < page.len() ==> page[cut_index(page, since)].updated_at < since,
    decreases page.len(),
{
    if page.len() > 0 && page[0].updated_at >= since {
        lemma_cut_index(page.drop_first(), since);
        assert forall|j: int| 0 <= j < cut_index(page, since) implies page[j].updated_at
            >= since by {
            if j > 0 {
                assert(page[j] == page.drop_first()[j - 1]);
            }
        }
    }
}

/// Scans a page of closed pull requests, most recently updated first: keeps
/// the merged ones up to the first one updated before `since`, and says
/// whether that one was reached.
pub fn scan_pr_page(page: &Vec<RawPullRequest>, since: i64) -> (r: PageScan)
    ensures
        r.keep@ == merged_positions(page@, cut_index(page@, since as int)),
        r.stop == (cut_index(page@, since as int) < page@.len()),
{
    proof {
        lemma_cut_index(page@, since as int);
    }
    let mut keep: Vec<usize> = Vec::new();
    let mut i: usize = 0;
    while i < page.len()
        invariant
            i <= page@.len(),
            i <= cut_index(page@, since as int),
            0 <= cut_index(page@, since as int) <= page@.len(),
            forall|j: int|
                0 <= j < cut_index(page@, since as int) ==> page@[j].updated_at >= since,
            cut_index(page@, since as int) < page@.len() ==> page@[cut_index(
                page@,
                since as int,
            )].updated_at < since,
            keep@ == merged_positions(page@, i as int),
        decreases page@.len() - i,
    {
        if page[i].updated_at < since {
            proof {
                assert(i as int == cut_index(page@, since as int));
            }
            return PageScan { keep, stop: true };
        }
        if page[i].merged_at.is_some() {
            keep.push(i);
        }
        i = i + 1;
    }
    PageScan { keep, stop: false }
}

/// The page to read after `page`, which held `fetched` pull requests: none
/// once a page is empty, the window was left, or `MAX_PR_PAGES` were read.
pub open spec fn next_page_spec(page: u32, fetched: nat, stop: bool) -> Option<u32> {
    if fetched == 0 || stop || page + 1 > MAX_PR_PAGES {
        None
    } else {
        Some((page + 1) as u32)
    }
}

pub fn next_page(page: u32, fetched: usize, stop: bool) -> (r: Option<u32>)
    requires
        page < u32::MAX,
    ensures
        r == next_page_spec(page, fetched as nat, stop),
{
    if fetched == 0 || stop {
        return None;
    }
    let next = page + 1;
    if next > MAX_PR_PAGES {
        None
    } else {
        Some(next)
    }
}

/// A pull request of `repo` from its listing record and, when it could be
/// read, its detail record (otherwise no lines or files are counted).  The
/// first review is not known from these records.
pub fn pull_request_from_raw(raw: &RawPullRequest, repo: &str, detail: Option<&RawPrDetail>) -> (p:
    PullRequest)
    ensures
        p.number == raw.number,
        p.repo@ == repo@,
        p.title == raw.title,
        p.author == raw.user.login,
        p.created_at == raw.created_at,
        p.merged_at == raw.merged_at,
        p.closed_at == raw.closed_at,
        p.first_review_at is None,
        p.additions == (match detail {
            Some(d) => d.additions,
            None => 0,
        }),
        p.deletions == (match detail {
            Some(d) => d.deletions,
            None => 0,
        }),
        p.changed_files == (match detail {
            Some(d) => d.changed_files,
            None => 0,
        }),
        p.base_ref == raw.base.ref_name,
{
    let (additions, deletions, changed_files) = match detail {
        Some(d) => (d.additions, d.deletions, d.changed_files),
        None => (0, 0, 0),
    };
    PullRequest {
        number: raw.number,
        repo: repo.to_owned(),
        title: raw.title.clone(),
        author: raw.user.login.clone(),
        created_at: raw.created_at,
        merged_at: raw.merged_at,
        closed_at: raw.closed_at,
        first_review_at: None,
        additions,
        deletions,
        changed_files,
        base_ref: raw.base.ref_name.clone(),
    }
}

// ── Deployments ──────────────────────────────────────────────────────────────
/// Length of the leading run of deployments created at or after `since`
/// (deployments come newest first).
pub open spec fn recent_prefix_len_spec(raws: Seq<RawDeployment>, since: int) -> int
    decreases raws.len(),
{
    if raws.len() == 0 || raws[0].created_at < since {
        0
    } else {
        1 + recent_prefix_len_spec(raws.drop_first(), since)
    }
}

proof fn lemma_recent_prefix(raws: Seq<RawDeployment>, since: int, i: int)
    requires
        0 <= i <= raws.len(),
        forall|j: int| 0 <= j < i ==> raws[j].created_at >= since,
        i == raws.len() || raws[i].created_at < since,
    ensures
        recent_prefix_len_spec(raws, since) == i,
    decreases raws.len(),
{
    if i > 0 {
        lemma_recent_prefix(raws.drop_first(), since, i - 1);
    }
}

pub fn recent_prefix_len(raws: &Vec<RawDeployment>, since: i64) -> (n: usize)
    ensures
        n == recent_prefix_len_spec(raws@, since as int),
{
    let mut i: usize = 0;
    while i < raws.len() && raws[i].created_at >= since
        invariant
            i <= raws@.len(),
            forall|j: int| 0 <= j < i ==> raws@[j].created_at >= since,
        decreases raws@.len() - i,
    {
        i = i + 1;
    }
    proof {
        lemma_recent_prefix(raws@, since as int, i as int);
    }
    i
}

/// Status named by a deployment-status `state`.
pub open spec fn status_of_state(state: Seq<char>) -> DeploymentStatus {
    if state == "success"@ {
        DeploymentStatus::Success
    } else if state == "failure"@ || state == "error"@ {
        DeploymentStatus::Failure
    } else if state == "in_progress"@ {
        DeploymentStatus::InProgress
    } else if state == "pending"@ {
        DeploymentStatus::Pending
    } else {
        DeploymentStatus::Other
    }
}

pub fn status_from_state(state: &str) -> (s: DeploymentStatus)
    ensures
        s == status_of_state(state@),
{
    if text_eq(state, "success") {
        DeploymentStatus::Success
    } else if text_eq(state, "failure") || text_eq(state, "error") {
        DeploymentStatus::Failure
    } else if text_eq(state, "in_progress") {
        DeploymentStatus::InProgress
    } else if text_eq(state, "pending") {
        DeploymentStatus::Pending
    } else {
        DeploymentStatus::Other
    }
}

/// Status of a deployment from the answer to its latest-status request:
/// `Other` when the request failed, `Pending` when no status was recorded,
/// otherwise the state of the latest status.
pub fn status_from_response(resp: Option<&Vec<RawDeploymentStatus>>) -> (s: DeploymentStatus)
    ensures
        s == match resp {
            None => DeploymentStatus::Other,
            Some(v) => if v@.len() == 0 {
                DeploymentStatus::Pending
            } else {
                status_of_state(v@[0].state@)
            },
        },
{
    match resp {
        None => DeploymentStatus::Other,
        Some(v) => if v.len() == 0 {
            DeploymentStatus::Pending
        } else {
            status_from_state(v[0].state.as_str())
        },
    }
}

/// A deployment of `repo` from its record and status.
pub fn deployment_from_raw(raw: &RawDeployment, repo: &str, status: DeploymentStatus) -> (d:
    Deployment)
    ensures
        d.id == raw.id,
        d.repo@ == repo@,
        d.environment == raw.environment,
        d.sha == raw.sha,
        d.created_at == raw.created_at,
        d.status == status,
{
    Deployment {
        id: raw.id,
        repo: repo.to_owned(),
        environment: raw.environment.clone(),
        sha: raw.sha.clone(),
        created_at: raw.created_at,
        status,
    }
}

// ── Workflow runs ────────────────────────────────────────────────────────────
pub open spec fn raw_run_in(r: RawWorkflowRun, since: int) -> bool {
    r.created_at >= since
}

/// The run records created at or after `since`, in order.
pub open spec fn runs_kept(raws: Seq<RawWorkflowRun>, since: int) -> Seq<RawWorkflowRun> {
    raws.filter(|r: RawWorkflowRun| raw_run_in(r, since))
}

/// `w` is the run of `repo` that record `r` describes, with its duration in
/// seconds from creation to last update.
pub open spec fn run_from(w: WorkflowRun, r: RawWorkflowRun, repo: Seq<char>) -> bool {
    &&& w.id == r.id
    &&& w.repo@ == repo
    &&& w.name == r.name
    &&& w.branch == r.head_branch
    &&& w.conclusion == r.conclusion
    &&& w.created_at == r.created_at
    &&& w.updated_at == r.updated_at
    &&& w.duration_secs == Some((r.updated_at - r.created_at) as i64)
}

/// The runs of `repo` on the page that were created at or after `since`.
pub fn runs_from_page(page: &RawWorkflowRunsPage, repo: &str, since: i64) -> (v: Vec<WorkflowRun>)
    requires
        forall|k: int|
            0 <= k < page.workflow_runs@.len() ==> valid_instant(
                #[trigger] page.workflow_runs@[k].created_at,
            ) && valid_instant(page.workflow_runs@[k].updated_at),
    ensures
        v@.len() == runs_kept(page.workflow_runs@, since as int).len(),
        forall|k: int|
            0 <= k < v@.len() ==> run_from(
                #[trigger] v@[k],
                runs_kept(page.workflow_runs@, since as int)[k],
                repo@,
            ),
{
    let raws = &page.workflow_runs;
    let ghost pred = |r: RawWorkflowRun| raw_run_in(r, since as int);
    let mut v: Vec<WorkflowRun> = Vec::new();
    let mut i: usize = 0;
    while i < raws.len()
        invariant
            i <= raws@.len(),
            raws == &page.workflow_runs,
            pred == (|r: RawWorkflowRun| raw_run_in(r, since as int)),
            forall|k: int|
                0 <= k < raws@.len() ==> valid_instant(#[trigger] raws@[k].created_at)
                    && valid_instant(raws@[k].updated_at),
            v@.len() == raws@.take(i as int).filter(pred).len(),
            forall|k: int|
                0 <= k < v@.len() ==> run_from(
                    #[trigger] v@[k],
                    raws@.take(i as int).filter(pred)[k],
                    repo@,
                ),
        decreases raws@.len() - i,
    {
        let r = &raws[i];
        proof {
            assert(raws@.take(i + 1) =~= raws@.take(i as int).push(raws@[i as int]));
            raws@.take(i as int).lemma_filter_push(raws@[i as int], pred);
            assert(valid_instant(raws@[i as int].created_at));
        }
        if r.created_at >= since {
            let conclusion = match &r.conclusion {
                Some(c) => Some(c.clone()),
                None => None,
            };
            let w = WorkflowRun {
                id: r.id,
                repo: repo.to_owned(),
                name: r.name.clone(),
                branch: r.head_branch.clone(),
                conclusion,
                created_at: r.created_at,
                updated_at: r.updated_at,
                duration_secs: Some(r.updated_at - r.created_at),
            };
            v.push(w);
        }
        i = i + 1;
    }
    proof {
        assert(raws@.take(raws@.len() as int) =~= raws@);
    }
    v
}

// ── Repositories ─────────────────────────────────────────────────────────────
/// Ordering key of a repository's last push; never-pushed repositories sort
/// below every pushed one.
pub open spec fn push_key(r: RawRepo) -> i128 {
    match r.pushed_at {
        Some(t) => t as i128,
        None => -0x1_0000_0000_0000_0000i128,
    }
}

/// Positions of the repositories, most recently pushed first; ties and
/// never-pushed repositories keep their listed order.
pub open spec fn push_order(raws: Seq<RawRepo>) -> Seq<usize> {
    ranked(raws.map_values(|r: RawRepo| push_key(r)))
}

/// Names of the listed repositories, most recently pushed first.
pub fn repo_names_by_push(raws: &Vec<RawRepo>) -> (names: Vec<String>)
    ensures
        names@.len() == raws@.len(),
        forall|k: int|
            0 <= k < names@.len() ==> #[trigger] names@[k] == raws@[push_order(raws@)[k] as int].name,
{
    let mut keys: Vec<i128> = Vec::new();
    let mut i: usize = 0;
    while i < raws.len()
        invariant
            i <= raws@.len(),
            keys@.len() == i,
            forall|k: int| 0 <= k < i ==> #[trigger] keys@[k] == push_key(raws@[k]),
        decreases raws@.len() - i,
    {
        let key: i128 = match raws[i].pushed_at {
            Some(t) => t as i128,
            None => -0x1_0000_0000_0000_0000i128,
        };
        keys.push(key);
        i = i + 1;
    }
    proof {
        assert(keys@ =~= raws@.map_values(|r: RawRepo| push_key(r)));
        assert(keys@.len() == keys.len());
        crate::sorting::lemma_ranked(keys@);
    }
    let order = rank_desc(&keys);
    let mut names: Vec<String> = Vec::new();
    let mut k: usize = 0;
    while k < order.len()
        invariant
            k <= order@.len(),
            order@ == push_order(raws@),
            order@.len() == raws@.len(),
            forall|j: int| 0 <= j < order@.len() ==> (#[trigger] order@[j]) < raws@.len(),
            names@.len() == k,
            forall|j: int|
                0 <= j < k ==> #[trigger] names@[j] == raws@[push_order(raws@)[j] as int].name,
        decreases order@.len() - k,
    {
        names.push(raws[order[k]].name.clone());
        k = k + 1;
    }
    names
}

/// Names of the listed repositories, in listed order.
pub fn repo_names(raws: &Vec<RawRepo>) -> (names: Vec<String>)
    ensures
        names@.len() == raws@.len(),
        forall|k: int| 0 <= k < names@.len() ==> #[trigger] names@[k] == raws@[k].name,
{
    let mut names: Vec<String> = Vec::new();
    let mut k: usize = 0;
    while k < raws.len()
        invariant
            k <= raws@.len(),
            names@.len() == k,
            forall|j: int| 0 <= j < k ==> #[trigger] names@[j] == raws@[j].name,
        decreases raws@.len() - k,
    {
        names.push(raws[k].name.clone());
        k = k + 1;
    }
    names
}

/// Keeps the first `MAX_LISTED_REPOS` repositories of a listing.
pub fn cap_repo_list(names: &mut Vec<String>)
    ensures
        final(names)@ == if old(names)@.len() <= MAX_LISTED_REPOS {
            old(names)@
        } else {
            old(names)@.take(MAX_LISTED_REPOS as int)
        },
{
    names.truncate(MAX_LISTED_REPOS);
}

/// The repositories to analyse: the configured ones when any are configured,
/// otherwise the first `MAX_LISTED_REPOS` of the owner's listing.
pub fn repos_to_analyse(configured: &Vec<String>, listed: Vec<String>) -> (r: Vec<String>)
    ensures
        configured@.len() > 0 ==> r@ == configured@,
        configured@.len() == 0 ==> r@ == if listed@.len() <= MAX_LISTED_REPOS {
            listed@
        } else {
            listed@.take(MAX_LISTED_REPOS as int)
        },
{
    if configured.len() > 0 {
        configured.clone()
    } else {
        let mut all = listed;
        cap_repo_list(&mut all);
        all
    }
}

/// The `Authorization` header value for a token.
pub fn bearer(token: &str) -> (h: String)
    ensures
        h@ == "Bearer "@ + token@,
{
    let mut h = "Bearer ".to_owned();
    h.append(token);
    h
}

impl Dataset {
    /// An empty dataset of `owner` covering `since` to `until`.
    pub fn for_window(owner: String, since: i64, until: i64) -> (d: Dataset)
        ensures
            d.owner == owner,
            d.since == Some(since),
            d.until == Some(until),
            d.prs@.len() == 0,
            d.deployments@.len() == 0,
            d.ci_runs@.len() == 0,
    {
        Dataset {
            owner,
            since: Some(since),
            until: Some(until),
            prs: Vec::new(),
            deployments: Vec::new(),
            ci_runs: Vec::new(),
        }
    }

    /// Appends one repository's records.
    pub fn absorb(
        &mut self,
        prs: Vec<PullRequest>,
        deployments: Vec<Deployment>,
        runs: Vec<WorkflowRun>,
    )
        ensures
            final(self).owner == old(self).owner,
            final(self).since == old(self).since,
            final(self).until == old(self).until,
            final(self).prs@ == old(self).prs@ + prs@,
            final(self).deployments@ == old(self).deployments@ + deployments@,
            final(self).ci_runs@ == old(self).ci_runs@ + runs@,
    {
        let mut prs = prs;
        let mut deployments = deployments;
        let mut runs = runs;
        self.prs.append(&mut prs);
        self.deployments.append(&mut deployments);
        self.ci_runs.append(&mut runs);
    }
}

} // verus!
