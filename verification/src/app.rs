//! State of the dashboard: tabs, selection, loading, and the response to keys.
use vstd::prelude::*;

use crate::breakdown::{per_author, per_author_of, per_repo, per_repo_of};
use crate::clock::{valid_now, window_in_range, Instant};
use crate::metrics::{calculate, metrics_of};
use crate::types::{AuthorStats, Dataset, DoraMetrics, RepoStats, MAX_INSTANT, MIN_INSTANT};

verus! {

/// A dashboard tab.
#[derive(Debug, Clone, Copy, PartialEq, Eq, Structural)]
pub enum Tab {
    Overview,
    Repos,
    Authors,
    CI,
}

/// Number of tabs.
pub const TAB_COUNT: usize = 4;

/// The tab at position `i` of Overview, Repos, Authors, CI.
pub open spec fn tab_at_spec(i: int) -> Option<Tab> {
    if i == 0 {
        Some(Tab::Overview)
    } else if i == 1 {
        Some(Tab::Repos)
    } else if i == 2 {
        Some(Tab::Authors)
    } else if i == 3 {
        Some(Tab::CI)
    } else {
        None
    }
}

impl Tab {
    pub open spec fn title_text(self) -> Seq<char> {
        match self {
            Tab::Overview => "Overview"@,
            Tab::Repos => "Repos"@,
            Tab::Authors => "Authors"@,
            Tab::CI => "CI"@,
        }
    }

    /// Title shown in the tab bar.
    pub fn title(&self) -> (s: &'static str)
        ensures
            s@ == self.title_text(),
    {
        match self {
            Tab::Overview => "Overview",
            Tab::Repos => "Repos",
            Tab::Authors => "Authors",
            Tab::CI => "CI",
        }
    }

    /// The tab at position `i` in the tab bar, if any.
    pub fn at(i: usize) -> (t: Option<Tab>)
        ensures
            t == tab_at_spec(i as int),
    {
        if i == 0 {
            Some(Tab::Overview)
        } else if i == 1 {
            Some(Tab::Repos)
        } else if i == 2 {
            Some(Tab::Authors)
        } else if i == 3 {
            Some(Tab::CI)
        } else {
            None
        }
    }
}

/// Whether data is being fetched, has arrived, or failed to arrive.
#[derive(Debug, Clone)]
pub enum LoadState {
    Loading,
    Loaded,
    Error(String),
}

/// A key press the dashboard responds to.
#[derive(Debug, Clone, Copy, PartialEq, Eq, Structural)]
pub enum Key {
    Char(char),
    Tab,
    BackTab,
    Up,
    Down,
    Other,
}

/// What the event loop does after a key.
#[derive(Debug, Clone, Copy, PartialEq, Eq, Structural)]
pub enum Flow {
    Continue,
    /// Start fetching the data again.
    Fetch,
    Quit,
}

/// `a` holds dataset `ds`, marked as loaded, with its metrics and breakdowns
/// over the `lookback` days ending at some instant the clock read (none, and
/// empty breakdowns, when that window would start before the earliest
/// instant a timestamp can hold).
pub open spec fn loaded_from(a: App, ds: Dataset, lookback: u32) -> bool {
    &&& a.dataset == Some(ds)
    &&& a.load_state is Loaded
    &&& exists|now: Instant|
        #![trigger window_in_range(now, lookback)]
        0 <= now.secs <= MAX_INSTANT && valid_now(now) && match a.metrics {
            Some(m) => window_in_range(now, lookback) && metrics_of(
                m,
                ds,
                lookback,
                now,
            ),
            None => !window_in_range(now, lookback),
        }
    &&& exists|now: Instant|
        #![trigger window_in_range(now, lookback)]
        0 <= now.secs <= MAX_INSTANT && valid_now(now) && if window_in_range(now, lookback) {
            per_repo_of(a.repo_stats@, ds, lookback, now)
        } else {
            a.repo_stats@.len() == 0
        }
    &&& exists|now: Instant|
        #![trigger window_in_range(now, lookback)]
        0 <= now.secs <= MAX_INSTANT && valid_now(now) && if window_in_range(now, lookback) {
            per_author_of(a.author_stats@, ds, lookback, now)
        } else {
            a.author_stats@.len() == 0
        }
}

/// Keys that switch tabs, move the selection or refresh.
pub open spec fn moves_or_refreshes(key: Key) -> bool {
    key == Key::Tab || key == Key::BackTab || key == Key::Up || key == Key::Down || key == Key::Char(
        'l',
    ) || key == Key::Char('h') || key == Key::Char('j') || key == Key::Char('k') || key
        == Key::Char('r')
}

/// Dashboard state.
pub struct App {
    pub demo: bool,
    pub load_state: LoadState,
    /// Position of the shown tab.
    pub tab: usize,
    /// Selected row of the shown table.
    pub selected: usize,
    pub dataset: Option<Dataset>,
    pub metrics: Option<DoraMetrics>,
    pub repo_stats: Vec<RepoStats>,
    pub author_stats: Vec<AuthorStats>,
    pub lookback_days: u32,
}

/// Rows of the table shown on the tab at position `tab`.
pub open spec fn list_len(a: App) -> nat {
    match tab_at_spec(a.tab as int) {
        Some(Tab::Repos) => a.repo_stats@.len(),
        Some(Tab::Authors) => a.author_stats@.len(),
        Some(Tab::CI) => match a.dataset {
            Some(d) => d.ci_runs@.len(),
            None => 0,
        },
        _ => 0,
    }
}

/// Position of the tab after the one at `t`, wrapping around.
pub open spec fn next_tab_index(t: int) -> int {
    (t + 1) % (TAB_COUNT as int)
}

/// Position of the tab before the one at `t`, wrapping around.
pub open spec fn prev_tab_index(t: int) -> int {
    (t + TAB_COUNT - 1) % (TAB_COUNT as int)
}

/// Row selected after moving down: the next one, but not past the last.
pub open spec fn row_below(a: App) -> int {
    if a.selected + 1 <= max_row(a) {
        a.selected + 1
    } else {
        max_row(a) as int
    }
}

/// Row selected after moving up: the previous one, but not before the first.
pub open spec fn row_above(a: App) -> int {
    if a.selected == 0 {
        0
    } else {
        a.selected - 1
    }
}

/// Largest row that can be selected: one less than the number of rows, or 0.
pub open spec fn max_row(a: App) -> nat {
    if list_len(a) == 0 {
        0
    } else {
        (list_len(a) - 1) as nat
    }
}

impl App {
    /// A dashboard that is loading data, on the first tab, summarizing the
    /// `lookback_days` days that end when the data arrives.
    pub fn new(demo: bool, lookback_days: u32) -> (a: App)
        ensures
            a.demo == demo,
            a.load_state is Loading,
            a.tab == 0,
            a.selected == 0,
            a.dataset is None,
            a.metrics is None,
            a.repo_stats@.len() == 0,
            a.author_stats@.len() == 0,
            a.lookback_days == lookback_days,
    {
        App {
            demo,
            load_state: LoadState::Loading,
            tab: 0,
            selected: 0,
            dataset: None,
            metrics: None,
            repo_stats: Vec::new(),
            author_stats: Vec::new(),
            lookback_days,
        }
    }

    /// Rows of the table on the shown tab.
    pub fn current_list_len(&self) -> (n: usize)
        ensures
            n == list_len(*self),
    {
        match Tab::at(self.tab) {
            Some(Tab::Repos) => self.repo_stats.len(),
            Some(Tab::Authors) => self.author_stats.len(),
            Some(Tab::CI) => match &self.dataset {
                Some(d) => d.ci_runs.len(),
                None => 0,
            },
            _ => 0,
        }
    }

    /// Shows the next tab (wrapping) and selects its first row.
    pub fn next_tab(&mut self)
        requires
            old(self).tab < usize::MAX,
        ensures
            final(self).tab == next_tab_index(old(self).tab as int),
            final(self).selected == 0,
            final(self).load_state == old(self).load_state,
            final(self).dataset == old(self).dataset,
            final(self).metrics == old(self).metrics,
            final(self).repo_stats == old(self).repo_stats,
            final(self).author_stats == old(self).author_stats,
            final(self).demo == old(self).demo,
            final(self).lookback_days == old(self).lookback_days,
    {
        self.tab = (self.tab + 1) % TAB_COUNT;
        self.selected = 0;
    }

    /// Shows the previous tab (wrapping) and selects its first row.
    pub fn prev_tab(&mut self)
        requires
            old(self).tab + TAB_COUNT <= usize::MAX,
        ensures
            final(self).tab == prev_tab_index(old(self).tab as int),
            final(self).selected == 0,
            final(self).load_state == old(self).load_state,
            final(self).dataset == old(self).dataset,
            final(self).metrics == old(self).metrics,
            final(self).repo_stats == old(self).repo_stats,
            final(self).author_stats == old(self).author_stats,
            final(self).demo == old(self).demo,
            final(self).lookback_days == old(self).lookback_days,
    {
        self.tab = (self.tab + TAB_COUNT - 1) % TAB_COUNT;
        self.selected = 0;
    }

    /// Selects the next row, staying on the last one.
    pub fn move_down(&mut self)
        requires
            old(self).selected < usize::MAX,
        ensures
            final(self).selected == row_below(*old(self)),
            final(self).tab == old(self).tab,
            final(self).load_state == old(self).load_state,
            final(self).dataset == old(self).dataset,
            final(self).metrics == old(self).metrics,
            final(self).repo_stats == old(self).repo_stats,
            final(self).author_stats == old(self).author_stats,
            final(self).demo == old(self).demo,
            final(self).lookback_days == old(self).lookback_days,
    {
        let len = self.current_list_len();
        let max = if len == 0 {
            0
        } else {
            len - 1
        };
        let next = self.selected + 1;
        self.selected = if next <= max {
            next
        } else {
            max
        };
    }

    /// Selects the previous row, staying on the first one.
    pub fn move_up(&mut self)
        ensures
            final(self).selected == row_above(*old(self)),
            final(self).tab == old(self).tab,
            final(self).load_state == old(self).load_state,
            final(self).dataset == old(self).dataset,
            final(self).metrics == old(self).metrics,
            final(self).repo_stats == old(self).repo_stats,
            final(self).author_stats == old(self).author_stats,
            final(self).demo == old(self).demo,
            final(self).lookback_days == old(self).lookback_days,
    {
        if self.selected > 0 {
            self.selected = self.selected - 1;
        }
    }

    /// Marks the data as loading again and drops the computed metrics.
    pub fn refresh(&mut self)
        ensures
            final(self).load_state is Loading,
            final(self).metrics is None,
            final(self).tab == old(self).tab,
            final(self).selected == old(self).selected,
            final(self).dataset == old(self).dataset,
            final(self).repo_stats == old(self).repo_stats,
            final(self).author_stats == old(self).author_stats,
            final(self).demo == old(self).demo,
            final(self).lookback_days == old(self).lookback_days,
    {
        self.load_state = LoadState::Loading;
        self.metrics = None;
    }

    /// Takes in a fetched dataset: computes its metrics and breakdowns over the
    /// look-back window ending now, keeps it, and marks the data as loaded.
    /// (A window that would start before the earliest instant a timestamp can
    /// hold leaves no metrics and empty breakdowns.)
    pub fn on_data_loaded(&mut self, ds: Dataset)
        requires
            ds.wf(),
        ensures
            loaded_from(*final(self), ds, old(self).lookback_days),
            final(self).tab == old(self).tab,
            final(self).selected == old(self).selected,
            final(self).demo == old(self).demo,
            final(self).lookback_days == old(self).lookback_days,
    {
        let lookback = self.lookback_days;
        self.metrics = calculate(&ds, lookback);
        let repos = per_repo(&ds, lookback);
        let authors = per_author(&ds, lookback);
        proof {
            let t = choose|now: Instant|
                0 <= now.secs <= MAX_INSTANT && valid_now(now) && match repos {
                    Some(v) => window_in_range(now, lookback) && per_repo_of(
                        v@,
                        ds,
                        lookback,
                        now,
                    ),
                    None => !window_in_range(now, lookback),
                };
            let u = choose|now: Instant|
                0 <= now.secs <= MAX_INSTANT && valid_now(now) && match authors {
                    Some(v) => window_in_range(now, lookback) && per_author_of(
                        v@,
                        ds,
                        lookback,
                        now,
                    ),
                    None => !window_in_range(now, lookback),
                };
        }
        self.repo_stats = match repos {
            Some(v) => v,
            None => Vec::new(),
        };
        self.author_stats = match authors {
            Some(v) => v,
            None => Vec::new(),
        };
        self.dataset = Some(ds);
        self.load_state = LoadState::Loaded;
    }

    /// Takes in the outcome of a fetch: the dataset, or the message of the
    /// error that stopped it.
    pub fn on_fetch_result(&mut self, result: Result<Dataset, String>)
        requires
            result matches Ok(ds) ==> ds.wf(),
        ensures
            match result {
                Ok(ds) => loaded_from(*final(self), ds, old(self).lookback_days),
                Err(msg) => final(self).load_state == LoadState::Error(msg) && final(self).dataset
                    == old(self).dataset && final(self).metrics == old(self).metrics
                    && final(self).repo_stats == old(self).repo_stats && final(self).author_stats
                    == old(self).author_stats,
            },
            final(self).tab == old(self).tab,
            final(self).selected == old(self).selected,
            final(self).demo == old(self).demo,
            final(self).lookback_days == old(self).lookback_days,
    {
        match result {
            Ok(ds) => self.on_data_loaded(ds),
            Err(msg) => self.load_state = LoadState::Error(msg),
        }
    }

    /// Responds to a key press: `q` or Ctrl-C quits; Tab or `l` shows the next
    /// tab, BackTab or `h` the previous one; Down or `j` and Up or `k` move the
    /// selection; `r` marks the data as loading and asks for a new fetch; other
    /// keys do nothing.
    pub fn handle_key(&mut self, key: Key, ctrl: bool) -> (flow: Flow)
        requires
            old(self).tab + TAB_COUNT <= usize::MAX,
            old(self).selected < usize::MAX,
        ensures
            flow == (if key == Key::Char('q') || (ctrl && key == Key::Char('c')) {
                Flow::Quit
            } else if key == Key::Char('r') {
                Flow::Fetch
            } else {
                Flow::Continue
            }),
            (key == Key::Tab || key == Key::Char('l')) ==> final(self).tab == next_tab_index(
                old(self).tab as int,
            ) && final(self).selected == 0,
            (key == Key::BackTab || key == Key::Char('h')) ==> final(self).tab == prev_tab_index(
                old(self).tab as int,
            ) && final(self).selected == 0,
            (key == Key::Down || key == Key::Char('j')) ==> final(self).tab == old(self).tab
                && final(self).selected == row_below(*old(self)),
            (key == Key::Up || key == Key::Char('k')) ==> final(self).tab == old(self).tab
                && final(self).selected == row_above(*old(self)),
            key == Key::Char('r') ==> final(self).load_state is Loading && final(self).metrics is None
                && final(self).tab == old(self).tab && final(self).selected == old(self).selected,
            !moves_or_refreshes(key) ==> final(self).tab == old(self).tab && final(self).selected
                == old(self).selected && final(self).load_state == old(self).load_state
                && final(self).metrics == old(self).metrics,
            key != Key::Char('r') ==> final(self).load_state == old(self).load_state
                && final(self).metrics == old(self).metrics,
            old(self).tab < TAB_COUNT ==> final(self).tab < TAB_COUNT,
            final(self).demo == old(self).demo,
            final(self).lookback_days == old(self).lookback_days,
            final(self).dataset == old(self).dataset,
            final(self).repo_stats == old(self).repo_stats,
            final(self).author_stats == old(self).author_stats,
    {
        match key {
            Key::Char('q') => Flow::Quit,
            Key::Char('c') if ctrl => Flow::Quit,
            Key::Tab | Key::Char('l') => {
                self.next_tab();
                Flow::Continue
            },
            Key::BackTab | Key::Char('h') => {
                self.prev_tab();
                Flow::Continue
            },
            Key::Down | Key::Char('j') => {
                self.move_down();
                Flow::Continue
            },
            Key::Up | Key::Char('k') => {
                self.move_up();
                Flow::Continue
            },
            Key::Char('r') => {
                self.refresh();
                Flow::Fetch
            },
            _ => Flow::Continue,
        }
    }
}

} // verus!
