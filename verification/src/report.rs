//! Power-saving telemetry: episode recording and report aggregation.
//!
//! The daemon records completed episodes in a file of JSON lines at
//! `$XDG_STATE_HOME/stasis/report.jsonl` (default `~/.local/state/stasis/`).
//! Each line is one completed episode:
//!
//! ```json
//! {"kind":"low_power","start":1234567890000,"end":1234567950000}
//! ```
//!
//! A report aggregates the durations per kind for the requested time window.

use vstd::prelude::*;
use vstd::string::*;

use crate::calendar::{may_be_midnight, midnight_today_ms};
use crate::path::FilePath;
use crate::path::{joined, opt_path, path_of};
use crate::text::{decimal, entry_lines, framed, texts};
use crate::text::{decimal_text, nonblank_lines};

verus! {

// ---------------- data model ----------------

#[derive(Debug, Clone, Copy, PartialEq, Eq, Structural, Hash)]
pub enum EpisodeKind {
    /// Display off (DPMS step fired until activity resumed).
    DisplayOff,
    /// Hardware low-power mode active.
    LowPower,
    /// System suspended.
    Suspend,
}

/// A completed episode. Times are in milliseconds since the epoch.
#[derive(Debug, Clone, Copy, PartialEq, Eq, Structural)]
pub struct Episode {
    pub kind: EpisodeKind,
    pub start: u64,
    pub end: u64,
}

/// Conservative estimates of the watts saved per kind.
pub open spec fn watts_of(kind: EpisodeKind) -> u64 {
    match kind {
        EpisodeKind::DisplayOff => 10,
        EpisodeKind::LowPower => 15,
        EpisodeKind::Suspend => 30,
    }
}

/// Conservative estimated watt savings of a kind. These are rough desktop and
/// laptop averages.
pub fn estimated_watts(kind: EpisodeKind) -> (r: u64)
    ensures
        r == watts_of(kind),
{
    match kind {
        EpisodeKind::DisplayOff => 10,
        EpisodeKind::LowPower => 15,
        EpisodeKind::Suspend => 30,
    }
}

// ---------------- path ----------------

/// The data file, for the user's state and home directories.
pub open spec fn data_path(state: Option<Seq<u8>>, home: Option<Seq<u8>>) -> Option<Seq<u8>> {
    let base = match state {
        Some(dir) => Some(dir),
        None => match home {
            Some(dir) => Some(joined(dir, path_of(".local/state"))),
            None => None,
        },
    };
    match base {
        Some(dir) => Some(joined(joined(dir, path_of("stasis")), path_of("report.jsonl"))),
        None => None,
    }
}

/// `dirs::state_dir`: the user's state directory as the environment gives it.
/// On Linux a directory that is found has a path that is not empty. Nothing
/// else is said of it.
#[verifier::external_body]
fn state_dir() -> (r: Option<FilePath>)
    ensures
        r matches Some(dir) ==> dir@.len() > 0,
{
    dirs::state_dir().map(|dir| FilePath { bytes: dir.into_os_string().into_encoded_bytes() })
}

/// `dirs::home_dir`: the user's home directory as the environment gives it. On
/// Linux a directory that is found has a path that is not empty. Nothing else
/// is said of it.
#[verifier::external_body]
fn home_dir() -> (r: Option<FilePath>)
    ensures
        r matches Some(dir) ==> dir@.len() > 0,
{
    dirs::home_dir().map(|dir| FilePath { bytes: dir.into_os_string().into_encoded_bytes() })
}

/// The data file below the state directory, or below the home directory where
/// there is no state directory.
pub fn report_path_in(state: Option<FilePath>, home: Option<FilePath>) -> (r: Option<FilePath>)
    ensures
        opt_path(r) == data_path(opt_path(state), opt_path(home)),
{
    let base = match state {
        Some(dir) => Some(dir),
        None => match home {
            Some(dir) => Some(dir.join(".local/state")),
            None => None,
        },
    };
    match base {
        Some(dir) => Some(dir.join("stasis").join("report.jsonl")),
        None => None,
    }
}

/// Whether `dir` can be what asking the environment for the state directory gives.
pub closed spec fn state_given(dir: Option<FilePath>) -> bool {
    call_ensures(state_dir, (), dir)
}

/// Whether `dir` can be what asking the environment for the home directory gives.
pub closed spec fn home_given(dir: Option<FilePath>) -> bool {
    call_ensures(home_dir, (), dir)
}

/// Whether `path` is where the data file is for some state and home directory.
pub open spec fn may_be_data_path(path: Option<Seq<u8>>) -> bool {
    exists|state: Option<Seq<u8>>, home: Option<Seq<u8>>|
        {
            &&& path == #[trigger] data_path(state, home)
            &&& state matches Some(dir) ==> dir.len() > 0
            &&& home matches Some(dir) ==> dir.len() > 0
        }
}

/// The data file below the state directory of the environment, or below its home
/// directory where it has no state directory. There is none where it has neither.
pub fn report_data_path() -> (r: Option<FilePath>)
    ensures
        exists|state: Option<FilePath>, home: Option<FilePath>|
            {
                &&& #[trigger] state_given(state)
                &&& state is None ==> home_given(home)
                &&& opt_path(r) == #[trigger] data_path(opt_path(state), opt_path(home))
            },
        may_be_data_path(opt_path(r)),
{
    let state = state_dir();
    let home = if state.is_some() {
        None
    } else {
        home_dir()
    };
    assert(state_given(state));
    assert(may_be_data_path(data_path(opt_path(state), opt_path(home))));
    report_path_in(state, home)
}

// ---------------- recorder (daemon side) ----------------

/// Tracks open episodes. A completed episode is handed out, to be appended to
/// the data file.
#[derive(Debug)]
pub struct ReportRecorder {
    display_off: Option<u64>,
    low_power: Option<u64>,
    suspend: Option<u64>,
    path: FilePath,
}

/// What a recorder remembers: when each open episode started, and the data
/// file.
pub struct RecorderView {
    pub open: Map<EpisodeKind, u64>,
    pub path: Seq<u8>,
}

impl View for ReportRecorder {
    type V = RecorderView;

    closed spec fn view(&self) -> RecorderView {
        RecorderView {
            open: Map::new(
                |kind: EpisodeKind| self.slot(kind) is Some,
                |kind: EpisodeKind| self.slot(kind)->0,
            ),
            path: self.path@,
        }
    }
}

/// The episode that ends at `now`. A clock that went back ends it at its start.
pub open spec fn ended(kind: EpisodeKind, start: u64, now: u64) -> Episode {
    Episode {
        kind,
        start,
        end: if now >= start {
            now
        } else {
            start
        },
    }
}

/// What ending `kind` at `now` completes: one episode if one is open.
pub open spec fn completed(
    open: Map<EpisodeKind, u64>,
    kind: EpisodeKind,
    now: u64,
) -> Option<Episode> {
    if open.contains_key(kind) {
        Some(ended(kind, open[kind], now))
    } else {
        None
    }
}

/// The episodes that ending every kind at `now` completes.
pub open spec fn all_completed(open: Map<EpisodeKind, u64>, now: u64) -> Seq<Episode> {
    somes(
        seq![
            completed(open, EpisodeKind::DisplayOff, now),
            completed(open, EpisodeKind::LowPower, now),
            completed(open, EpisodeKind::Suspend, now),
        ],
    )
}

/// The values that are there, in order.
pub open spec fn somes(items: Seq<Option<Episode>>) -> Seq<Episode>
    decreases items.len(),
{
    if items.len() == 0 {
        Seq::empty()
    } else {
        appended(somes(items.drop_last()), items.last())
    }
}

/// `list` with the item at its end, if it is there.
pub open spec fn appended(list: Seq<Episode>, item: Option<Episode>) -> Seq<Episode> {
    match item {
        Some(episode) => list.push(episode),
        None => list,
    }
}

/// Unfolds `somes` over three items.
pub proof fn lemma_somes_of_three(
    first: Option<Episode>,
    second: Option<Episode>,
    third: Option<Episode>,
)
    ensures
        somes(seq![first, second, third]) == appended(
            appended(appended(Seq::empty(), first), second),
            third,
        ),
{
    assert(seq![first, second, third].drop_last() == seq![first, second]);
    assert(seq![first, second].drop_last() == seq![first]);
    assert(seq![first].drop_last() == Seq::<Option<Episode>>::empty());
    reveal_with_fuel(somes, 4);
}

impl ReportRecorder {
    spec fn slot(&self, kind: EpisodeKind) -> Option<u64> {
        match kind {
            EpisodeKind::DisplayOff => self.display_off,
            EpisodeKind::LowPower => self.low_power,
            EpisodeKind::Suspend => self.suspend,
        }
    }

    /// A recorder without open episodes, for the data file `path`, or for
    /// `report.jsonl` where there is none.
    pub fn with_path(path: Option<FilePath>) -> (r: ReportRecorder)
        ensures
            r@.open == Map::<EpisodeKind, u64>::empty(),
            r@.path == (match path {
                Some(known) => known@,
                None => path_of("report.jsonl"),
            }),
    {
        let path = match path {
            Some(known) => known,
            None => FilePath::from_text("report.jsonl"),
        };
        let r = ReportRecorder { display_off: None, low_power: None, suspend: None, path };
        assert(r@.open == Map::<EpisodeKind, u64>::empty());
        r
    }

    /// A recorder without open episodes, for the user's data file.
    pub fn new() -> (r: ReportRecorder)
        ensures
            r@.open == Map::<EpisodeKind, u64>::empty(),
            exists|path: Option<FilePath>| #[trigger]
                call_ensures(report_data_path, (), path) && r@.path == (match opt_path(path) {
                    Some(known) => known,
                    None => path_of("report.jsonl"),
                }),
    {
        ReportRecorder::with_path(report_data_path())
    }

    /// The data file.
    pub fn path(&self) -> (r: &FilePath)
        ensures
            r@ == self@.path,
    {
        &self.path
    }

    /// Records the start of an episode. If one of this kind is open already, its
    /// start is discarded.
    pub fn start(&mut self, kind: EpisodeKind, now_ms: u64)
        ensures
            final(self)@.open == old(self)@.open.insert(kind, now_ms),
            final(self)@.path == old(self)@.path,
    {
        match kind {
            EpisodeKind::DisplayOff => {
                self.display_off = Some(now_ms);
            },
            EpisodeKind::LowPower => {
                self.low_power = Some(now_ms);
            },
            EpisodeKind::Suspend => {
                self.suspend = Some(now_ms);
            },
        }
        assert(self@.open =~= old(self)@.open.insert(kind, now_ms));
    }

    /// Records the end of an open episode and hands it out, to be appended to
    /// the data file.
    pub fn end(&mut self, kind: EpisodeKind, now_ms: u64) -> (r: Option<Episode>)
        ensures
            r == completed(old(self)@.open, kind, now_ms),
            r matches Some(episode) ==> episode.start <= episode.end,
            final(self)@.open == old(self)@.open.remove(kind),
            final(self)@.path == old(self)@.path,
    {
        let start = match kind {
            EpisodeKind::DisplayOff => self.display_off.take(),
            EpisodeKind::LowPower => self.low_power.take(),
            EpisodeKind::Suspend => self.suspend.take(),
        };
        assert(self@.open =~= old(self)@.open.remove(kind));
        assert(start == old(self).slot(kind));
        match start {
            Some(start) => {
                let end = if now_ms >= start {
                    now_ms
                } else {
                    start
                };
                Some(Episode { kind, start, end })
            },
            None => None,
        }
    }

    /// Ends every open episode (e.g. on daemon shutdown) and hands them out.
    pub fn flush(&mut self, now_ms: u64) -> (r: Vec<Episode>)
        ensures
            r@ == all_completed(old(self)@.open, now_ms),
            final(self)@.open == Map::<EpisodeKind, u64>::empty(),
            final(self)@.path == old(self)@.path,
    {
        let ghost open = self@.open;
        let mut out: Vec<Episode> = Vec::new();
        let first = self.end(EpisodeKind::DisplayOff, now_ms);
        let second = self.end(EpisodeKind::LowPower, now_ms);
        let third = self.end(EpisodeKind::Suspend, now_ms);
        if let Some(episode) = first {
            out.push(episode);
        }
        if let Some(episode) = second {
            out.push(episode);
        }
        if let Some(episode) = third {
            out.push(episode);
        }
        proof {
            lemma_somes_of_three(first, second, third);
            assert(out@ == appended(appended(appended(Seq::empty(), first), second), third));
            assert forall|kind: EpisodeKind| !self@.open.contains_key(kind) by {
                match kind {
                    EpisodeKind::DisplayOff => {},
                    EpisodeKind::LowPower => {},
                    EpisodeKind::Suspend => {},
                }
            }
            assert(self@.open =~= Map::<EpisodeKind, u64>::empty());
        }
        out
    }
}

impl Default for ReportRecorder {
    fn default() -> (r: ReportRecorder)
        ensures
            r@.open == Map::<EpisodeKind, u64>::empty(),
            exists|path: Option<FilePath>| #[trigger]
                call_ensures(report_data_path, (), path) && r@.path == (match opt_path(path) {
                    Some(known) => known,
                    None => path_of("report.jsonl"),
                }),
    {
        ReportRecorder::new()
    }
}

/// What is appended to the data file for an encoded episode. One that could not
/// be encoded leaves a blank line.
pub fn record_line(encoded: Option<String>) -> (r: String)
    ensures
        r@ == framed(
            match encoded {
                Some(line) => line@,
                None => Seq::empty(),
            },
        ),
{
    let mut line = match encoded {
        Some(line) => line,
        None => String::new(),
    };
    line.push('\n');
    line
}

// ---------------- aggregation (command line side) ----------------

#[derive(Debug, Clone, Copy, PartialEq, Eq, Structural)]
pub enum ReportRange {
    Today,
    Week,
}

/// Durations per kind, in milliseconds, and the number of episodes.
#[derive(Debug, Clone, Copy, PartialEq, Eq, Structural)]
pub struct ReportSummary {
    pub display_off_ms: u64,
    pub low_power_ms: u64,
    pub suspend_ms: u64,
    pub episode_count: usize,
}

/// A summary as numbers without bounds.
pub struct Totals {
    pub display_off_ms: int,
    pub low_power_ms: int,
    pub suspend_ms: int,
    pub episode_count: int,
}

impl View for ReportSummary {
    type V = Totals;

    open spec fn view(&self) -> Totals {
        Totals {
            display_off_ms: self.display_off_ms as int,
            low_power_ms: self.low_power_ms as int,
            suspend_ms: self.suspend_ms as int,
            episode_count: self.episode_count as int,
        }
    }
}

impl Totals {
    /// Nothing counted.
    pub open spec fn zero() -> Totals {
        Totals { display_off_ms: 0, low_power_ms: 0, suspend_ms: 0, episode_count: 0 }
    }

    /// The sum of two totals.
    pub open spec fn plus(self, other: Totals) -> Totals {
        Totals {
            display_off_ms: self.display_off_ms + other.display_off_ms,
            low_power_ms: self.low_power_ms + other.low_power_ms,
            suspend_ms: self.suspend_ms + other.suspend_ms,
            episode_count: self.episode_count + other.episode_count,
        }
    }

    /// Whether no number is larger than the one of `other`.
    pub open spec fn at_most(self, other: Totals) -> bool {
        &&& self.display_off_ms <= other.display_off_ms
        &&& self.low_power_ms <= other.low_power_ms
        &&& self.suspend_ms <= other.suspend_ms
        &&& self.episode_count <= other.episode_count
    }

    /// Whether a summary can hold the numbers.
    pub open spec fn fits(self) -> bool {
        &&& 0 <= self.display_off_ms <= u64::MAX
        &&& 0 <= self.low_power_ms <= u64::MAX
        &&& 0 <= self.suspend_ms <= u64::MAX
        &&& 0 <= self.episode_count <= usize::MAX
    }
}

/// What one episode adds: its duration to its kind, and one to the count.
pub open spec fn share_of(episode: Episode) -> Totals {
    let ms = episode.end - episode.start;
    Totals {
        display_off_ms: if episode.kind == EpisodeKind::DisplayOff {
            ms
        } else {
            0
        },
        low_power_ms: if episode.kind == EpisodeKind::LowPower {
            ms
        } else {
            0
        },
        suspend_ms: if episode.kind == EpisodeKind::Suspend {
            ms
        } else {
            0
        },
        episode_count: 1,
    }
}

/// The part of an episode from `cutoff` on.
pub open spec fn clipped(episode: Episode, cutoff: u64) -> Episode {
    Episode {
        start: if episode.start >= cutoff {
            episode.start
        } else {
            cutoff
        },
        ..episode
    }
}

/// What an episode adds to the window that begins at `cutoff`: nothing if it
/// ended before, else its part in the window.
pub open spec fn window_share(episode: Episode, cutoff: u64) -> Totals {
    if episode.end >= cutoff {
        share_of(clipped(episode, cutoff))
    } else {
        Totals::zero()
    }
}

/// What the episodes come to in the window that begins at `cutoff`.
pub open spec fn totals(episodes: Seq<Episode>, cutoff: u64) -> Totals
    decreases episodes.len(),
{
    if episodes.len() == 0 {
        Totals::zero()
    } else {
        totals(episodes.drop_last(), cutoff).plus(window_share(episodes.last(), cutoff))
    }
}

/// Whether no episode of the window ends before it starts.
pub open spec fn ordered(episodes: Seq<Episode>, cutoff: u64) -> bool {
    forall|i: int|
        0 <= i < episodes.len() && (#[trigger] episodes[i]).end >= cutoff ==> episodes[i].start
            <= episodes[i].end
}

/// Whether the episodes of the window can be summed up.
pub open spec fn countable(episodes: Seq<Episode>, cutoff: u64) -> bool {
    ordered(episodes, cutoff) && totals(episodes, cutoff).fits()
}

/// Where the window of a report begins: at the last local midnight, or now if
/// the day has not exactly one, or a week ago.
pub open spec fn cutoff_of(range: ReportRange, now: u64, midnight: Option<u64>) -> u64 {
    match range {
        ReportRange::Today => match midnight {
            Some(ms) => ms,
            None => now,
        },
        ReportRange::Week => if now >= 604_800_000 {
            (now - 604_800_000) as u64
        } else {
            0
        },
    }
}

/// The report on `episodes`, or the error where no data file could be located.
pub open spec fn is_report(
    range: ReportRange,
    episodes: Option<Seq<Episode>>,
    now: u64,
    midnight: Option<u64>,
    result: Result<ReportSummary, String>,
) -> bool {
    match episodes {
        Some(list) => result matches Ok(summary) && summary@ == totals(
            list,
            cutoff_of(range, now, midnight),
        ),
        None => result matches Err(e) && e@ == "could not determine state directory"@,
    }
}

impl Default for ReportSummary {
    fn default() -> (r: ReportSummary)
        ensures
            r@ == Totals::zero(),
    {
        ReportSummary { display_off_ms: 0, low_power_ms: 0, suspend_ms: 0, episode_count: 0 }
    }
}

impl ReportSummary {
    /// Counts an episode.
    pub fn add(&mut self, episode: &Episode)
        requires
            episode.start <= episode.end,
            old(self)@.plus(share_of(*episode)).fits(),
        ensures
            final(self)@ == old(self)@.plus(share_of(*episode)),
    {
        self.episode_count = self.episode_count + 1;
        let ms = episode.end - episode.start;
        match episode.kind {
            EpisodeKind::DisplayOff => {
                self.display_off_ms = self.display_off_ms + ms;
            },
            EpisodeKind::LowPower => {
                self.low_power_ms = self.low_power_ms + ms;
            },
            EpisodeKind::Suspend => {
                self.suspend_ms = self.suspend_ms + ms;
            },
        }
    }

    /// How far the energy estimate can be trusted. It is an estimate, not a
    /// wall-metered measurement.
    pub fn confidence(&self) -> (r: &'static str)
        ensures
            r@ == (if self.episode_count == 0 {
                "none"@
            } else {
                "low (estimated)"@
            }),
    {
        if self.episode_count == 0 {
            "none"
        } else {
            "low (estimated)"
        }
    }
}

/// Whether `parse` can make `item` of the text `line`.
pub open spec fn parses_to<F: Fn(&str) -> Option<Episode>>(
    parse: F,
    line: Seq<char>,
    item: Option<Episode>,
) -> bool {
    exists|text: &str| text@ == line && #[trigger] call_ensures(parse, (text,), item)
}

/// The lines of a data file, none if it could not be read.
pub open spec fn file_lines(text: Option<Seq<char>>) -> Seq<Seq<char>> {
    match text {
        Some(content) => entry_lines(content),
        None => Seq::empty(),
    }
}

/// Whether `episodes` is what `parse` makes of the lines, in their order, without
/// the lines that it cannot decode.
pub open spec fn reads<F: Fn(&str) -> Option<Episode>>(
    parse: F,
    lines: Seq<Seq<char>>,
    episodes: Seq<Episode>,
) -> bool {
    exists|items: Seq<Option<Episode>>|
        {
            &&& items.len() == lines.len()
            &&& forall|i: int|
                0 <= i < lines.len() ==> parses_to(parse, lines[i], #[trigger] items[i])
            &&& episodes == #[trigger] somes(items)
        }
}

/// Reads all episodes of a data file, where `parse` decodes one line. Blank
/// lines and lines that cannot be decoded are passed over. A file that could
/// not be read has no episodes.
pub fn read_all_episodes<F: Fn(&str) -> Option<Episode>>(text: Option<&str>, parse: F) -> (r: Vec<
    Episode,
>)
    requires
        forall|line: &str| call_requires(parse, (line,)),
    ensures
        reads(
            parse,
            file_lines(
                match text {
                    Some(content) => Some(content@),
                    None => None,
                },
            ),
            r@,
        ),
{
    let mut out: Vec<Episode> = Vec::new();
    let lines: Vec<String> = match text {
        Some(content) => nonblank_lines(content),
        None => Vec::new(),
    };
    let ghost mut items: Seq<Option<Episode>> = Seq::empty();
    assert(text is None ==> texts(lines@) == Seq::<Seq<char>>::empty());
    let mut i: usize = 0;
    while i < lines.len()
        invariant
            forall|line: &str| call_requires(parse, (line,)),
            i <= lines.len(),
            items.len() == i,
            out@ == somes(items),
            forall|j: int|
                0 <= j < i ==> parses_to(parse, texts(lines@)[j], #[trigger] items[j]),
        decreases lines.len() - i,
    {
        let line = lines[i].as_str();
        let item = parse(line);
        assert(parses_to(parse, texts(lines@)[i as int], item));
        proof {
            let next = items.push(item);
            assert(next.drop_last() == items);
            items = next;
        }
        if let Some(episode) = item {
            out.push(episode);
        }
        i = i + 1;
    }
    assert(somes(items) == out@);
    out
}

/// All but the last of ordered episodes are ordered.
pub proof fn lemma_ordered_drop_last(episodes: Seq<Episode>, cutoff: u64)
    requires
        episodes.len() > 0,
        ordered(episodes, cutoff),
    ensures
        ordered(episodes.drop_last(), cutoff),
{
    let init = episodes.drop_last();
    assert forall|i: int|
        0 <= i < init.len() && (#[trigger] init[i]).end >= cutoff implies init[i].start
        <= init[i].end by {
        assert(init[i] == episodes[i]);
    }
}

proof fn lemma_totals_prefix(episodes: Seq<Episode>, cutoff: u64, n: int)
    requires
        0 <= n <= episodes.len(),
        ordered(episodes, cutoff),
    ensures
        Totals::zero().at_most(totals(episodes.take(n), cutoff)),
        totals(episodes.take(n), cutoff).at_most(totals(episodes, cutoff)),
    decreases episodes.len(),
{
    if n == episodes.len() {
        assert(episodes.take(n) == episodes);
        if n > 0 {
            let init = episodes.drop_last();
            lemma_ordered_drop_last(episodes, cutoff);
            lemma_totals_prefix(init, cutoff, n - 1);
            assert(init.take(n - 1) == init);
            assert(episodes.last() == episodes[n - 1]);
        }
    } else {
        let init = episodes.drop_last();
        lemma_ordered_drop_last(episodes, cutoff);
        lemma_totals_prefix(init, cutoff, n);
        assert(init.take(n) == episodes.take(n));
        assert(episodes.last() == episodes[episodes.len() - 1]);
    }
}

/// Where the window of a report begins.
pub fn cutoff_ms(range: ReportRange, now_ms: u64, midnight_ms: Option<u64>) -> (r: u64)
    ensures
        r == cutoff_of(range, now_ms, midnight_ms),
{
    match range {
        ReportRange::Today => match midnight_ms {
            Some(ms) => ms,
            None => now_ms,
        },
        ReportRange::Week => now_ms.saturating_sub(7 * 24 * 3_600_000),
    }
}

/// Builds the summary for a range. `episodes` is what the data file holds, or
/// `None` where the data file could not be located.
pub fn build_report(
    range: ReportRange,
    episodes: Option<&Vec<Episode>>,
    now_ms: u64,
    midnight_ms: Option<u64>,
) -> (r: Result<ReportSummary, String>)
    requires
        episodes matches Some(list) ==> countable(
            list@,
            cutoff_of(range, now_ms, midnight_ms),
        ),
    ensures
        is_report(
            range,
            match episodes {
                Some(list) => Some(list@),
                None => None,
            },
            now_ms,
            midnight_ms,
            r,
        ),
{
    let list = match episodes {
        Some(list) => list,
        None => {
            return Err("could not determine state directory".to_owned());
        },
    };
    let cutoff = cutoff_ms(range, now_ms, midnight_ms);
    let mut summary = ReportSummary::default();
    let mut i: usize = 0;
    while i < list.len()
        invariant
            i <= list.len(),
            countable(list@, cutoff),
            summary@ == totals(list@.take(i as int), cutoff),
        decreases list.len() - i,
    {
        let episode = &list[i];
        proof {
            assert(list@.take(i + 1).drop_last() == list@.take(i as int));
            lemma_totals_prefix(list@, cutoff, i as int);
            lemma_totals_prefix(list@, cutoff, i + 1);
        }
        // An episode counts if it ended within the window, and only the time
        // inside the window counts.
        if episode.end >= cutoff {
            let start = if episode.start >= cutoff {
                episode.start
            } else {
                cutoff
            };
            summary.add(&Episode { kind: episode.kind, start, end: episode.end });
        }
        i = i + 1;
    }
    assert(list@.take(list@.len() as int) == list@);
    Ok(summary)
}

/// Whether the episodes of the window that begins at `cutoff` can be summed up.
pub fn can_count(episodes: &Vec<Episode>, cutoff: u64) -> (r: bool)
    ensures
        r == countable(episodes@, cutoff),
{
    let mut summary = ReportSummary::default();
    let mut i: usize = 0;
    while i < episodes.len()
        invariant
            i <= episodes.len(),
            ordered(episodes@.take(i as int), cutoff),
            summary@ == totals(episodes@.take(i as int), cutoff),
        decreases episodes.len() - i,
    {
        let episode = &episodes[i];
        proof {
            assert(episodes@.take(i + 1).drop_last() == episodes@.take(i as int));
        }
        if episode.end >= cutoff {
            if episode.start > episode.end {
                assert(!ordered(episodes@, cutoff));
                return false;
            }
            let start = if episode.start >= cutoff {
                episode.start
            } else {
                cutoff
            };
            let ms = episode.end - start;
            let room = match episode.kind {
                EpisodeKind::DisplayOff => u64::MAX - summary.display_off_ms,
                EpisodeKind::LowPower => u64::MAX - summary.low_power_ms,
                EpisodeKind::Suspend => u64::MAX - summary.suspend_ms,
            };
            if ms > room || summary.episode_count == usize::MAX {
                proof {
                    if ordered(episodes@, cutoff) {
                        lemma_totals_prefix(episodes@, cutoff, i + 1);
                    }
                }
                return false;
            }
            summary.add(&Episode { kind: episode.kind, start, end: episode.end });
        }
        proof {
            let next = episodes@.take(i + 1);
            assert forall|j: int|
                0 <= j < next.len() && (#[trigger] next[j]).end >= cutoff implies next[j].start
                <= next[j].end by {
                if j < i {
                    assert(next[j] == episodes@.take(i as int)[j]);
                }
            }
        }
        i = i + 1;
    }
    assert(episodes@.take(episodes@.len() as int) == episodes@);
    true
}

/// Builds the summary for a range with the local midnight of the machine's
/// clock. `None` if the durations of the window cannot be summed up: an episode
/// ends before it starts, or a total is too large.
pub fn build_report_now(
    range: ReportRange,
    episodes: Option<&Vec<Episode>>,
    now_ms: u64,
) -> (r: Option<Result<ReportSummary, String>>)
    ensures
        exists|midnight: Option<u64>|
            {
                let cutoff = #[trigger] cutoff_of(range, now_ms, midnight);
                &&& range == ReportRange::Today ==> call_ensures(midnight_today_ms, (), midnight)
                &&& midnight is Some ==> may_be_midnight(midnight)
                &&& match r {
                    Some(result) => {
                        &&& episodes matches Some(list) ==> countable(list@, cutoff)
                        &&& is_report(
                            range,
                            match episodes {
                                Some(list) => Some(list@),
                                None => None,
                            },
                            now_ms,
                            midnight,
                            result,
                        )
                    },
                    None => episodes matches Some(list) && !countable(list@, cutoff),
                }
            },
{
    let midnight = match range {
        ReportRange::Today => midnight_today_ms(),
        ReportRange::Week => None,
    };
    let cutoff = cutoff_ms(range, now_ms, midnight);
    assert(cutoff == cutoff_of(range, now_ms, midnight));
    if let Some(list) = episodes {
        if !can_count(list, cutoff) {
            return None;
        }
    }
    Some(build_report(range, episodes, now_ms, midnight))
}

/// The clock's reading in milliseconds since the epoch, where it was read as
/// `since_epoch_ms`. A clock before the epoch reads as the epoch.
pub fn epoch_ms(since_epoch_ms: Option<u128>) -> (r: u64)
    ensures
        r as int == (match since_epoch_ms {
            Some(ms) => ms as int % 0x1_0000_0000_0000_0000,
            None => 0,
        }),
{
    match since_epoch_ms {
        Some(ms) => {
            let low = #[verifier::truncate] (ms as u64);
            assert(low as u128 == ms % 0x1_0000_0000_0000_0000) by (bit_vector)
                requires
                    low == ms as u64,
            ;
            low
        },
        None => 0,
    }
}

// ---------------- formatting ----------------

/// How a duration of `ms` milliseconds is shown: hours and minutes, or minutes,
/// or seconds.
pub open spec fn duration_text(ms: nat) -> Seq<char> {
    let secs = ms / 1000;
    let h = secs / 3600;
    let m = (secs % 3600) / 60;
    if h > 0 {
        decimal(h) + "h "@ + decimal(m) + "m"@
    } else if m > 0 {
        decimal(m) + "m"@
    } else {
        decimal(secs) + "s"@
    }
}

/// How a duration of `ms` milliseconds is shown.
pub fn format_duration(ms: u64) -> (r: String)
    ensures
        r@ == duration_text(ms as nat),
{
    let total_secs = ms / 1000;
    let h = total_secs / 3600;
    let m = (total_secs % 3600) / 60;
    if h > 0 {
        decimal_text(h).concat("h ").concat(decimal_text(m).as_str()).concat("m")
    } else if m > 0 {
        decimal_text(m).concat("m")
    } else {
        decimal_text(total_secs).concat("s")
    }
}

/// The text of a report. `kwh` is the energy estimate.
pub open spec fn report_text(
    range: ReportRange,
    summary: ReportSummary,
    kwh: Seq<char>,
) -> Seq<char> {
    let label = match range {
        ReportRange::Today => "Today"@,
        ReportRange::Week => "This Week"@,
    };
    let head = "Stasis Report\n"@ + "\n"@ + label + "\n"@;
    let durations = "  Display off:   "@ + duration_text(summary.display_off_ms as nat) + "\n"@
        + "  Low power:     "@ + duration_text(summary.low_power_ms as nat) + "\n"@
        + "  Suspended:     "@ + duration_text(summary.suspend_ms as nat) + "\n"@;
    let tail = if summary.episode_count > 0 {
        "\n  Estimated energy saved: "@ + kwh + " kWh\n"@ + "  Estimate confidence:    "@
            + "low (estimated)"@ + "\n"@
    } else {
        "\n  (no idle episodes recorded yet)\n"@
    };
    head + durations + tail
}

/// Renders the full text report. `kwh` is the energy estimate in kilowatt hours
/// with two decimals.
pub fn render_report(range: ReportRange, summary: &ReportSummary, kwh: &str) -> (r: String)
    ensures
        r@ == report_text(range, *summary, kwh@),
{
    let label = match range {
        ReportRange::Today => "Today",
        ReportRange::Week => "This Week",
    };
    let head = "Stasis Report\n".to_owned().concat("\n").concat(label).concat("\n");
    let display_off = format_duration(summary.display_off_ms);
    let low_power = format_duration(summary.low_power_ms);
    let suspend = format_duration(summary.suspend_ms);
    let durations = "  Display off:   ".to_owned().concat(display_off.as_str()).concat("\n").concat(
        "  Low power:     ",
    ).concat(low_power.as_str()).concat("\n").concat("  Suspended:     ").concat(
        suspend.as_str(),
    ).concat("\n");
    let tail = if summary.episode_count > 0 {
        "\n  Estimated energy saved: ".to_owned().concat(kwh).concat(" kWh\n").concat(
            "  Estimate confidence:    ",
        ).concat(summary.confidence()).concat("\n")
    } else {
        "\n  (no idle episodes recorded yet)\n".to_owned()
    };
    head.concat(durations.as_str()).concat(tail.as_str())
}

} // verus!
