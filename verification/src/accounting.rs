//! What holds of recorded episodes, and of the reports that are made of them.

use vstd::prelude::*;
use vstd::string::*;
use vstd::utf8::encode_utf8;

use crate::path::FilePath;
use crate::path::{as_dir, joined, lemma_below, lemma_two_below, path_of};
use crate::report::{
    all_completed, appended, completed, countable, cutoff_of, data_path, ended, file_lines,
    is_report, lemma_ordered_drop_last, lemma_somes_of_three, ordered, parses_to, reads, share_of,
    somes, totals, window_share,
};
use crate::report::{
    build_report, can_count, cutoff_ms, epoch_ms, estimated_watts, read_all_episodes, record_line,
    report_path_in,
};
use crate::report::{Episode, EpisodeKind, ReportRange, ReportRecorder, ReportSummary, Totals};
use crate::text::{entry_lines, framed, law_append_line, law_unfinished_line_counts, trimmed};

verus! {

// ---------------- recording ----------------

/// An episode spans from its latest start to its end, and is empty if the clock
/// went back. Starting and ending one kind does not touch the other kinds, and
/// an ended episode cannot be ended again.
pub proof fn law_episode_spans_start_to_end(
    open: Map<EpisodeKind, u64>,
    kind: EpisodeKind,
    other: EpisodeKind,
    earlier: u64,
    start: u64,
    now: u64,
)
    requires
        other != kind,
    ensures
        completed(open.insert(kind, earlier).insert(kind, start), kind, now) == Some(
            Episode {
                kind,
                start,
                end: if now >= start {
                    now
                } else {
                    start
                },
            },
        ),
        completed(open.insert(kind, start), other, now) == completed(open, other, now),
        completed(open.remove(kind), other, now) == completed(open, other, now),
        completed(open.remove(kind), kind, now) is None,
{
}

/// Starting a kind twice and ending it hands out one episode, from the later start
/// to the end, or to the start again if the clock went back. The kind is open no
/// more, the other kinds are as they were, and so is the data file.
pub proof fn law_start_start_end(
    first: &mut ReportRecorder,
    second: &mut ReportRecorder,
    last: &mut ReportRecorder,
    kind: EpisodeKind,
    earlier: u64,
    start: u64,
    now: u64,
    handed_out: Option<Episode>,
)
    requires
        call_ensures(ReportRecorder::start, (first, kind, earlier), ()),
        *final(first) == *old(second),
        call_ensures(ReportRecorder::start, (second, kind, start), ()),
        *final(second) == *old(last),
        call_ensures(ReportRecorder::end, (last, kind, now), handed_out),
    ensures
        handed_out is Some,
        handed_out->0.kind == kind,
        handed_out->0.start == start,
        now >= start ==> handed_out->0.end == now,
        now < start ==> handed_out->0.end == start,
        !final(last)@.open.contains_key(kind),
        forall|other: EpisodeKind|
            other != kind ==> {
                &&& (#[trigger] final(last)@.open.contains_key(other)) == old(
                    first,
                )@.open.contains_key(other)
                &&& old(first)@.open.contains_key(other) ==> final(last)@.open[other] == old(
                    first,
                )@.open[other]
            },
        final(last)@.path == old(first)@.path,
{
}

/// Ending a kind that is not open hands out nothing and changes nothing.
pub proof fn law_end_needs_a_start(
    recorder: &mut ReportRecorder,
    kind: EpisodeKind,
    now: u64,
    handed_out: Option<Episode>,
)
    requires
        !old(recorder)@.open.contains_key(kind),
        call_ensures(ReportRecorder::end, (recorder, kind, now), handed_out),
    ensures
        handed_out is None,
        final(recorder)@ == old(recorder)@,
{
    assert(final(recorder)@.open =~= old(recorder)@.open);
}

/// Flushing hands out one episode for each kind that is open, from its start to
/// now, or to the start again if the clock went back, and leaves none open.
pub proof fn law_flush_hands_out_what_is_open(
    recorder: &mut ReportRecorder,
    now: u64,
    handed_out: Vec<Episode>,
)
    requires
        call_ensures(ReportRecorder::flush, (recorder, now), handed_out),
    ensures
        forall|kind: EpisodeKind| !(#[trigger] final(recorder)@.open.contains_key(kind)),
        final(recorder)@.path == old(recorder)@.path,
        forall|kind: EpisodeKind| #[trigger]
            old(recorder)@.open.contains_key(kind) ==> exists|i: int|
                0 <= i < handed_out@.len() && (#[trigger] handed_out@[i]).kind == kind,
        forall|i: int|
            0 <= i < handed_out@.len() ==> {
                let episode = #[trigger] handed_out@[i];
                &&& old(recorder)@.open.contains_key(episode.kind)
                &&& episode.start == old(recorder)@.open[episode.kind]
                &&& now >= episode.start ==> episode.end == now
                &&& now < episode.start ==> episode.end == episode.start
            },
        forall|i: int, j: int|
            0 <= i < j < handed_out@.len() ==> (#[trigger] handed_out@[i]).kind != (
            #[trigger] handed_out@[j]).kind,
{
    let open = old(recorder)@.open;
    law_flush_ends_every_kind(open, now);
    assert forall|kind: EpisodeKind| #[trigger] open.contains_key(kind) implies exists|i: int|
        0 <= i < handed_out@.len() && (#[trigger] handed_out@[i]).kind == kind by {
        let episode = ended(kind, open[kind], now);
        assert(handed_out@.contains(episode));
        let i = choose|i: int| 0 <= i < handed_out@.len() && handed_out@[i] == episode;
        assert(handed_out@[i].kind == kind);
    }
}

/// Flushing hands out one episode for every open kind and none for any other,
/// each as ending that kind alone would have.
pub proof fn law_flush_ends_every_kind(open: Map<EpisodeKind, u64>, now: u64)
    ensures
        forall|kind: EpisodeKind| #[trigger]
            open.contains_key(kind) ==> all_completed(open, now).contains(
                ended(kind, open[kind], now),
            ),
        forall|i: int|
            0 <= i < all_completed(open, now).len() ==> {
                let episode = #[trigger] all_completed(open, now)[i];
                &&& open.contains_key(episode.kind)
                &&& episode == ended(episode.kind, open[episode.kind], now)
            },
        forall|i: int, j: int|
            0 <= i < j < all_completed(open, now).len() ==> (#[trigger] all_completed(
                open,
                now,
            )[i]).kind != (#[trigger] all_completed(open, now)[j]).kind,
{
    let first = completed(open, EpisodeKind::DisplayOff, now);
    let second = completed(open, EpisodeKind::LowPower, now);
    let third = completed(open, EpisodeKind::Suspend, now);
    lemma_somes_of_three(first, second, third);
    let all = all_completed(open, now);
    let one = appended(Seq::empty(), first);
    let two = appended(one, second);
    assert(all == appended(two, third));
    assert forall|kind: EpisodeKind| #[trigger] open.contains_key(kind) implies all.contains(
        ended(kind, open[kind], now),
    ) by {
        match kind {
            EpisodeKind::DisplayOff => {
                assert(all[0] == ended(kind, open[kind], now));
            },
            EpisodeKind::LowPower => {
                assert(two[two.len() - 1] == ended(kind, open[kind], now));
                assert(all[two.len() - 1] == ended(kind, open[kind], now));
            },
            EpisodeKind::Suspend => {
                assert(all[all.len() - 1] == ended(kind, open[kind], now));
            },
        }
    }
}

/// A recorder without open episodes has nothing to flush.
pub proof fn law_second_flush_is_empty(now: u64)
    ensures
        all_completed(Map::empty(), now) == Seq::<Episode>::empty(),
{
    law_flush_ends_every_kind(Map::empty(), now);
    let all = all_completed(Map::empty(), now);
    if all.len() > 0 {
        assert(Map::<EpisodeKind, u64>::empty().contains_key(all[0].kind));
    }
}

// ---------------- where the data file is ----------------

proof fn lemma_report_file(dir: Seq<u8>)
    ensures
        joined(joined(dir, path_of("stasis")), path_of("report.jsonl")) == as_dir(dir)
            + encode_utf8("stasis/report.jsonl"@),
{
    reveal_strlit("stasis");
    reveal_strlit("report.jsonl");
    reveal_strlit("stasis/report.jsonl");
    lemma_two_below(dir, "stasis"@, "report.jsonl"@);
    assert("stasis"@ + seq!['/'] + "report.jsonl"@ =~= "stasis/report.jsonl"@);
}

/// The data file is `stasis/report.jsonl` below the state directory, whatever
/// the home directory is. Without a state directory it is
/// `.local/state/stasis/report.jsonl` below the home directory, and without
/// either there is none.
pub proof fn law_data_file_is_below_state_or_home(
    state: Seq<u8>,
    home: Seq<u8>,
    any_home: Option<Seq<u8>>,
)
    ensures
        data_path(Some(state), any_home) == Some(
            as_dir(state) + encode_utf8("stasis/report.jsonl"@),
        ),
        data_path(None, Some(home)) == Some(
            as_dir(home) + encode_utf8(".local/state/stasis/report.jsonl"@),
        ),
        data_path(None, None) is None,
{
    lemma_report_file(state);
    reveal_strlit(".local/state");
    reveal_strlit("stasis");
    reveal_strlit("report.jsonl");
    reveal_strlit("stasis/report.jsonl");
    reveal_strlit(".local/state/stasis/report.jsonl");
    let base = joined(home, path_of(".local/state"));
    lemma_report_file(base);
    lemma_below(base, "stasis/report.jsonl"@);
    lemma_two_below(home, ".local/state"@, "stasis/report.jsonl"@);
    assert(".local/state"@ + seq!['/'] + "stasis/report.jsonl"@
        =~= ".local/state/stasis/report.jsonl"@);
}

/// The data file is found below the state directory before the home directory is
/// looked at.
pub proof fn law_found_data_file(
    state: Option<FilePath>,
    home: Option<FilePath>,
    found: Option<FilePath>,
)
    requires
        call_ensures(report_path_in, (state, home), found),
    ensures
        found is Some <==> state is Some || home is Some,
        state is Some ==> found->0.bytes@ == as_dir(state->0.bytes@) + encode_utf8(
            "stasis/report.jsonl"@,
        ),
        state is None && home is Some ==> found->0.bytes@ == as_dir(home->0.bytes@) + encode_utf8(
            ".local/state/stasis/report.jsonl"@,
        ),
{
    if let Some(dir) = state {
        law_data_file_is_below_state_or_home(
            dir.bytes@,
            dir.bytes@,
            crate::path::opt_path(home),
        );
    } else if let Some(dir) = home {
        law_data_file_is_below_state_or_home(dir.bytes@, dir.bytes@, None);
    } else {
        law_data_file_is_below_state_or_home(Seq::empty(), Seq::empty(), None);
    }
}

/// A new recorder has nothing open, and keeps the data file that it is given, or
/// `report.jsonl` if it is given none.
pub proof fn law_new_recorder(path: Option<FilePath>, recorder: ReportRecorder)
    requires
        call_ensures(ReportRecorder::with_path, (path,), recorder),
    ensures
        forall|kind: EpisodeKind| !(#[trigger] recorder@.open.contains_key(kind)),
        path is Some ==> recorder@.path == path->0.bytes@,
        path is None ==> recorder@.path == encode_utf8("report.jsonl"@),
{
}

// ---------------- the data file ----------------

/// A recorded line is what the episode was encoded as, and a line feed. An
/// episode that could not be encoded leaves the line feed alone.
pub proof fn law_recorded_line_ends(encoded: Option<String>, line: String)
    requires
        call_ensures(record_line, (encoded,), line),
    ensures
        line@.len() > 0,
        line@.last() == '\n',
        encoded is Some ==> line@.drop_last() == encoded->0@,
        encoded is None ==> line@.len() == 1,
{
    if encoded is Some {
        assert(line@.drop_last() == encoded->0@);
    }
}

/// A line that is added to a data file of whole lines is read as one more line,
/// without the whitespace around it, whether or not a line feed ends it. A blank
/// line is not read. An empty data file, and one that could not be read, have no
/// lines.
pub proof fn law_lines_of_a_data_file(text: Seq<char>, line: Seq<char>)
    requires
        text.len() == 0 || text.last() == '\n',
        !line.contains('\n'),
    ensures
        file_lines(None).len() == 0,
        file_lines(Some(Seq::empty())).len() == 0,
        trimmed(line).len() > 0 ==> file_lines(Some(text + line)) == file_lines(Some(text)).push(
            trimmed(line),
        ),
        trimmed(line).len() == 0 ==> file_lines(Some(text + line)) == file_lines(Some(text)),
        file_lines(Some(text + line.push('\n'))) == file_lines(Some(text + line)),
{
    law_unfinished_line_counts(text, line);
    law_append_line(text, line);
    assert(framed(line) == line.push('\n'));
}

/// What is read of a further line comes after what is read of the others, and a
/// line that cannot be decoded takes nothing away.
pub proof fn law_decoded_lines_are_kept_in_order(items: Seq<Option<Episode>>, episode: Episode)
    ensures
        somes(Seq::empty()).len() == 0,
        somes(items.push(Some(episode))) == somes(items).push(episode),
        somes(items.push(None)) == somes(items),
{
    assert(items.push(Some(episode)).drop_last() == items);
    assert(items.push(None).drop_last() == items);
}

/// Of a data file that could not be read no episodes are read.
pub proof fn law_unreadable_file_has_no_episodes<F: Fn(&str) -> Option<Episode>>(
    parse: F,
    episodes: Seq<Episode>,
)
    requires
        reads(parse, file_lines(None), episodes),
    ensures
        episodes.len() == 0,
{
}

/// The episodes that a data file holds for a decoder of lines.
pub open spec fn episodes_in(
    text: Seq<char>,
    decode: spec_fn(Seq<char>) -> Option<Episode>,
) -> Seq<Episode> {
    somes(entry_lines(text).map_values(decode))
}

/// The data file after the episodes were appended one by one to an empty file.
pub open spec fn file_of(
    episodes: Seq<Episode>,
    encode: spec_fn(Episode) -> Seq<char>,
) -> Seq<char>
    decreases episodes.len(),
{
    if episodes.len() == 0 {
        Seq::empty()
    } else {
        file_of(episodes.drop_last(), encode) + framed(encode(episodes.last()))
    }
}

/// With a decoder whose result depends on the line alone, reading a data file
/// gives the episodes that the file holds.
pub proof fn law_reading_gives_episodes<F: Fn(&str) -> Option<Episode>>(
    parse: F,
    text: Seq<char>,
    episodes: Seq<Episode>,
    decode: spec_fn(Seq<char>) -> Option<Episode>,
)
    requires
        reads(parse, file_lines(Some(text)), episodes),
        forall|line: Seq<char>, item: Option<Episode>| #[trigger]
            parses_to(parse, line, item) ==> item == decode(line),
    ensures
        episodes == episodes_in(text, decode),
{
    let lines = entry_lines(text);
    let items = choose|items: Seq<Option<Episode>>|
        {
            &&& items.len() == lines.len()
            &&& forall|i: int|
                0 <= i < lines.len() ==> parses_to(parse, lines[i], #[trigger] items[i])
            &&& episodes == #[trigger] somes(items)
        };
    assert(items =~= lines.map_values(decode));
}

/// Appending an encoded episode to a data file of whole lines adds that episode
/// to those that are read back, and leaves the others as they were, if decoding
/// gives back what was encoded.
pub proof fn law_appended_episode_is_read_back(
    text: Seq<char>,
    line: Seq<char>,
    episode: Episode,
    decode: spec_fn(Seq<char>) -> Option<Episode>,
)
    requires
        text.len() == 0 || text.last() == '\n',
        !line.contains('\n'),
        trimmed(line).len() > 0,
        decode(trimmed(line)) == Some(episode),
    ensures
        episodes_in(text + framed(line), decode) == episodes_in(text, decode).push(episode),
{
    law_append_line(text, line);
    let before = entry_lines(text).map_values(decode);
    let after = entry_lines(text + framed(line)).map_values(decode);
    assert(after == before.push(Some(episode)));
    assert(after.drop_last() == before);
}

/// Reading a data file of whole lines, appending an encoded episode to it and
/// reading it again gives what was read before followed by that episode, with a
/// decoder whose result depends on the line alone and which gives back what was
/// encoded.
pub proof fn law_read_append_read<F: Fn(&str) -> Option<Episode>>(
    parse: F,
    text: Seq<char>,
    line: Seq<char>,
    episode: Episode,
    before: Seq<Episode>,
    after: Seq<Episode>,
    decode: spec_fn(Seq<char>) -> Option<Episode>,
)
    requires
        text.len() == 0 || text.last() == '\n',
        !line.contains('\n'),
        trimmed(line).len() > 0,
        forall|line: Seq<char>, item: Option<Episode>| #[trigger]
            parses_to(parse, line, item) ==> item == decode(line),
        decode(trimmed(line)) == Some(episode),
        reads(parse, file_lines(Some(text)), before),
        reads(parse, file_lines(Some(text + framed(line))), after),
    ensures
        after == before.push(episode),
{
    law_reading_gives_episodes(parse, text, before, decode);
    law_reading_gives_episodes(parse, text + framed(line), after, decode);
    law_appended_episode_is_read_back(text, line, episode, decode);
}

/// Reading the text of a data file of whole lines, and reading it again with a
/// further line at its end, gives the same episodes and then the one that the line
/// decodes to. A file that could not be read has no episodes.
pub proof fn law_two_readings_differ_by_the_line<F: Fn(&str) -> Option<Episode>>(
    parse: F,
    shorter: &str,
    longer: &str,
    line: Seq<char>,
    episode: Episode,
    before: Vec<Episode>,
    after: Vec<Episode>,
    unread: Vec<Episode>,
    decode: spec_fn(Seq<char>) -> Option<Episode>,
)
    requires
        shorter@.len() == 0 || shorter@.last() == '\n',
        !line.contains('\n'),
        trimmed(line).len() > 0,
        longer@ == shorter@ + line.push('\n'),
        forall|line: Seq<char>, item: Option<Episode>| #[trigger]
            parses_to(parse, line, item) ==> item == decode(line),
        decode(trimmed(line)) == Some(episode),
        call_ensures(read_all_episodes::<F>, (Some(shorter), parse), before),
        call_ensures(read_all_episodes::<F>, (Some(longer), parse), after),
        call_ensures(read_all_episodes::<F>, (None, parse), unread),
    ensures
        after@ == before@.push(episode),
        unread@.len() == 0,
{
    assert(framed(line) == line.push('\n'));
    law_read_append_read(parse, shorter@, line, episode, before@, after@, decode);
    law_unreadable_file_has_no_episodes(parse, unread@);
}

/// Reading a data file of whole lines, appending a line that is blank or cannot
/// be decoded and reading it again gives what was read before.
pub proof fn law_read_spoil_read<F: Fn(&str) -> Option<Episode>>(
    parse: F,
    text: Seq<char>,
    line: Seq<char>,
    before: Seq<Episode>,
    after: Seq<Episode>,
    decode: spec_fn(Seq<char>) -> Option<Episode>,
)
    requires
        text.len() == 0 || text.last() == '\n',
        !line.contains('\n'),
        trimmed(line).len() == 0 || decode(trimmed(line)) is None,
        forall|line: Seq<char>, item: Option<Episode>| #[trigger]
            parses_to(parse, line, item) ==> item == decode(line),
        reads(parse, file_lines(Some(text)), before),
        reads(parse, file_lines(Some(text + framed(line))), after),
    ensures
        after == before,
{
    law_reading_gives_episodes(parse, text, before, decode);
    law_reading_gives_episodes(parse, text + framed(line), after, decode);
    law_bad_line_is_passed_over(text, line, decode);
}

/// A line that could not be encoded, or that cannot be decoded, changes nothing
/// of what is read back.
pub proof fn law_bad_line_is_passed_over(
    text: Seq<char>,
    line: Seq<char>,
    decode: spec_fn(Seq<char>) -> Option<Episode>,
)
    requires
        text.len() == 0 || text.last() == '\n',
        !line.contains('\n'),
        trimmed(line).len() == 0 || decode(trimmed(line)) is None,
    ensures
        episodes_in(text + framed(line), decode) == episodes_in(text, decode),
{
    law_append_line(text, line);
    if trimmed(line).len() > 0 {
        let before = entry_lines(text).map_values(decode);
        let after = entry_lines(text + framed(line)).map_values(decode);
        assert(after == before.push(None));
        assert(after.drop_last() == before);
    }
}

/// Reading gives back every recorded episode, in the order of recording, if
/// every episode is encoded as one line that decodes to it.
pub proof fn law_recorded_episodes_are_read_back(
    episodes: Seq<Episode>,
    encode: spec_fn(Episode) -> Seq<char>,
    decode: spec_fn(Seq<char>) -> Option<Episode>,
)
    requires
        forall|episode: Episode| !(#[trigger] encode(episode)).contains('\n'),
        forall|episode: Episode| trimmed(#[trigger] encode(episode)).len() > 0,
        forall|episode: Episode|
            decode(trimmed(#[trigger] encode(episode))) == Some(episode),
    ensures
        episodes_in(file_of(episodes, encode), decode) == episodes,
        file_of(episodes, encode).len() == 0 || file_of(episodes, encode).last() == '\n',
    decreases episodes.len(),
{
    if episodes.len() == 0 {
        let empty = Seq::<char>::empty();
        reveal_with_fuel(crate::text::nonblank, 2);
        assert(trimmed(empty) == empty);
        assert(crate::text::segments(empty).drop_last() == Seq::<Seq<char>>::empty());
        assert(entry_lines(empty) == Seq::<Seq<char>>::empty());
        assert(episodes_in(empty, decode) == Seq::<Episode>::empty());
    } else {
        let init = episodes.drop_last();
        law_recorded_episodes_are_read_back(init, encode, decode);
        law_appended_episode_is_read_back(
            file_of(init, encode),
            encode(episodes.last()),
            episodes.last(),
            decode,
        );
        assert(init.push(episodes.last()) == episodes);
    }
}

// ---------------- summaries ----------------

/// What two lists of episodes come to together is the sum of what each comes
/// to.
pub proof fn law_totals_add_up(a: Seq<Episode>, b: Seq<Episode>, cutoff: u64)
    ensures
        totals(a + b, cutoff) == totals(a, cutoff).plus(totals(b, cutoff)),
    decreases b.len(),
{
    if b.len() == 0 {
        assert(a + b == a);
    } else {
        law_totals_add_up(a, b.drop_last(), cutoff);
        assert((a + b).drop_last() == a + b.drop_last());
    }
}

/// The window of a week begins seven days before now, or at the epoch if that is
/// later. The window of today begins at midnight, or now without a midnight.
pub proof fn law_where_windows_begin(now: u64, midnight: Option<u64>)
    ensures
        ({
            let week = cutoff_of(ReportRange::Week, now, midnight);
            &&& now >= 7 * 24 * 60 * 60 * 1000 ==> week + 7 * 24 * 60 * 60 * 1000 == now
            &&& now < 7 * 24 * 60 * 60 * 1000 ==> week == 0
        }),
        midnight is Some ==> cutoff_of(ReportRange::Today, now, midnight) == midnight->0,
        midnight is None ==> cutoff_of(ReportRange::Today, now, midnight) == now,
{
}

/// A report on one episode more counts that episode if it ended in the window:
/// one to the number of episodes, and the time that it spent in the window to
/// its own kind. The other kinds stay as they are, and so does everything if the
/// episode ended before the window. The window of a week begins seven days before
/// now, that of today at midnight.
pub proof fn law_report_counts_a_further_episode(
    range: ReportRange,
    episodes: Seq<Episode>,
    episode: Episode,
    now: u64,
    midnight: Option<u64>,
    before: ReportSummary,
    after: ReportSummary,
)
    requires
        episode.start <= episode.end,
        is_report(range, Some(episodes), now, midnight, Ok(before)),
        is_report(range, Some(episodes.push(episode)), now, midnight, Ok(after)),
    ensures
        ({
            let begin: int = if range == ReportRange::Week {
                if now >= 604_800_000 {
                    now - 604_800_000
                } else {
                    0
                }
            } else if midnight is Some {
                midnight->0 as int
            } else {
                now as int
            };
            let inside: int = if episode.end < begin {
                0
            } else if episode.start < begin {
                episode.end - begin
            } else {
                episode.end - episode.start
            };
            &&& after.display_off_ms - before.display_off_ms == if episode.kind
                == EpisodeKind::DisplayOff {
                inside
            } else {
                0
            }
            &&& after.low_power_ms - before.low_power_ms == if episode.kind
                == EpisodeKind::LowPower {
                inside
            } else {
                0
            }
            &&& after.suspend_ms - before.suspend_ms == if episode.kind == EpisodeKind::Suspend {
                inside
            } else {
                0
            }
            &&& after.episode_count - before.episode_count == if episode.end >= begin {
                1int
            } else {
                0
            }
        }),
{
    assert(episodes.push(episode).drop_last() == episodes);
}

/// Of two reports, one on a list and one on the list with a further episode, the
/// second counts the time of that episode in the window to its own kind, and the
/// episode itself if it ended in the window.
pub proof fn law_two_reports_differ_by_the_episode(
    range: ReportRange,
    shorter: Vec<Episode>,
    longer: Vec<Episode>,
    episode: Episode,
    now: u64,
    midnight: Option<u64>,
    begin: u64,
    before: Result<ReportSummary, String>,
    after: Result<ReportSummary, String>,
)
    requires
        episode.start <= episode.end,
        longer@ == shorter@.push(episode),
        call_ensures(cutoff_ms, (range, now, midnight), begin),
        call_ensures(build_report, (range, Some(&shorter), now, midnight), before),
        call_ensures(build_report, (range, Some(&longer), now, midnight), after),
    ensures
        range == ReportRange::Week && now >= 604_800_000 ==> begin == now - 604_800_000,
        range == ReportRange::Week && now < 604_800_000 ==> begin == 0,
        range == ReportRange::Today && midnight is Some ==> begin == midnight->0,
        range == ReportRange::Today && midnight is None ==> begin == now,
        before is Ok,
        after is Ok,
        ({
            let a = before->Ok_0;
            let b = after->Ok_0;
            let inside: int = if episode.end < begin {
                0
            } else if episode.start < begin {
                episode.end - begin
            } else {
                episode.end - episode.start
            };
            &&& b.display_off_ms - a.display_off_ms == if episode.kind == EpisodeKind::DisplayOff {
                inside
            } else {
                0
            }
            &&& b.low_power_ms - a.low_power_ms == if episode.kind == EpisodeKind::LowPower {
                inside
            } else {
                0
            }
            &&& b.suspend_ms - a.suspend_ms == if episode.kind == EpisodeKind::Suspend {
                inside
            } else {
                0
            }
            &&& b.episode_count - a.episode_count == if episode.end >= begin {
                1int
            } else {
                0
            }
        }),
        shorter@.len() == 0 ==> before->Ok_0 == (ReportSummary {
            display_off_ms: 0,
            low_power_ms: 0,
            suspend_ms: 0,
            episode_count: 0,
        }),
{
    law_report_on_nothing(range, Some(shorter@), now, midnight, before);
    law_report_on_nothing(range, Some(longer@), now, midnight, after);
    law_report_counts_a_further_episode(
        range,
        shorter@,
        episode,
        now,
        midnight,
        before->Ok_0,
        after->Ok_0,
    );
}

/// A report on no episodes counts nothing, a report on some list is a summary,
/// and without a data file the report is an error that says so.
pub proof fn law_report_on_nothing(
    range: ReportRange,
    episodes: Option<Seq<Episode>>,
    now: u64,
    midnight: Option<u64>,
    result: Result<ReportSummary, String>,
)
    requires
        is_report(range, episodes, now, midnight, result),
    ensures
        episodes is Some <==> result is Ok,
        episodes is Some && episodes->0.len() == 0 ==> result == Ok::<ReportSummary, String>(
            ReportSummary {
                display_off_ms: 0,
                low_power_ms: 0,
                suspend_ms: 0,
                episode_count: 0,
            },
        ),
        episodes is None ==> result->Err_0@ == "could not determine state directory"@,
{
}

/// Counting an episode adds one to the number of episodes and its duration to its
/// own kind, and leaves the other kinds as they are.
pub proof fn law_counting_an_episode(summary: &mut ReportSummary, episode: Episode)
    requires
        call_ensures(ReportSummary::add, (summary, &episode), ()),
    ensures
        ({
            let before = *old(summary);
            let after = *final(summary);
            &&& after.episode_count == before.episode_count + 1
            &&& after.display_off_ms + after.low_power_ms + after.suspend_ms
                == before.display_off_ms + before.low_power_ms + before.suspend_ms + (episode.end
                - episode.start)
            &&& episode.kind != EpisodeKind::DisplayOff ==> after.display_off_ms
                == before.display_off_ms
            &&& episode.kind != EpisodeKind::LowPower ==> after.low_power_ms == before.low_power_ms
            &&& episode.kind != EpisodeKind::Suspend ==> after.suspend_ms == before.suspend_ms
        }),
{
}

/// A new summary counts nothing.
pub proof fn law_new_summary_is_empty(summary: ReportSummary)
    requires
        summary@ == Totals::zero(),
    ensures
        summary.display_off_ms == 0,
        summary.low_power_ms == 0,
        summary.suspend_ms == 0,
        summary.episode_count == 0,
{
}

/// Episodes can be counted exactly if none that ended in the window ends before
/// it starts, and some summary holds what they come to.
pub proof fn law_what_can_be_counted(episodes: Seq<Episode>, cutoff: u64)
    ensures
        countable(episodes, cutoff) <==> {
            &&& forall|i: int|
                0 <= i < episodes.len() ==> (#[trigger] episodes[i]).end < cutoff
                    || episodes[i].start <= episodes[i].end
            &&& exists|summary: ReportSummary| (#[trigger] summary@) == totals(episodes, cutoff)
        },
{
    let t = totals(episodes, cutoff);
    if t.fits() {
        let summary = ReportSummary {
            display_off_ms: t.display_off_ms as u64,
            low_power_ms: t.low_power_ms as u64,
            suspend_ms: t.suspend_ms as u64,
            episode_count: t.episode_count as usize,
        };
        assert(summary@ == t);
    }
    if exists|summary: ReportSummary| (#[trigger] summary@) == t {
        let summary = choose|summary: ReportSummary| (#[trigger] summary@) == t;
        assert(t.fits());
    }
}

/// A list can be counted exactly if none of its episodes that ended in the window
/// ends before it starts, and some summary holds what they come to.
pub proof fn law_counting_is_refused_only_for_a_reason(
    episodes: Vec<Episode>,
    cutoff: u64,
    can: bool,
)
    requires
        call_ensures(can_count, (&episodes, cutoff), can),
    ensures
        can <==> {
            &&& forall|i: int|
                0 <= i < episodes@.len() ==> (#[trigger] episodes@[i]).end < cutoff
                    || episodes@[i].start <= episodes@[i].end
            &&& exists|summary: ReportSummary| (#[trigger] summary@) == totals(episodes@, cutoff)
        },
{
    law_what_can_be_counted(episodes@, cutoff);
}

/// The order of the episodes does not matter to a report.
pub proof fn law_order_does_not_matter(a: Seq<Episode>, b: Seq<Episode>, cutoff: u64)
    ensures
        totals(a + b, cutoff) == totals(b + a, cutoff),
{
    law_totals_add_up(a, b, cutoff);
    law_totals_add_up(b, a, cutoff);
}

/// A suspended system is estimated to save 30 watts, hardware in low-power mode
/// 15, and a display that is off 10.
pub proof fn law_watts_of_each_kind(kind: EpisodeKind, watts: u64)
    requires
        call_ensures(estimated_watts, (kind,), watts),
    ensures
        kind == EpisodeKind::DisplayOff ==> watts == 10,
        kind == EpisodeKind::LowPower ==> watts == 15,
        kind == EpisodeKind::Suspend ==> watts == 30,
{
}

/// A reading of the clock that fits in 64 bits is kept, and a clock before the
/// epoch reads as the epoch.
pub proof fn law_clock_reading_is_kept(since_epoch_ms: Option<u128>, ms: u64)
    requires
        call_ensures(epoch_ms, (since_epoch_ms,), ms),
    ensures
        since_epoch_ms is None ==> ms == 0,
        since_epoch_ms is Some && since_epoch_ms->0 <= u64::MAX ==> ms == since_epoch_ms->0,
        since_epoch_ms is Some ==> (since_epoch_ms->0 - ms) % 0x1_0000_0000_0000_0000 == 0,
{
}

/// The milliseconds of totals, over all kinds.
pub open spec fn all_ms(t: Totals) -> int {
    t.display_off_ms + t.low_power_ms + t.suspend_ms
}

/// An episode that reaches over the cutoff counts without the time before it,
/// one inside the window counts whole, and one that ended before the window
/// does not count.
pub proof fn law_only_time_in_window_counts(episode: Episode, cutoff: u64)
    requires
        episode.start <= episode.end,
    ensures
        episode.end < cutoff ==> window_share(episode, cutoff) == Totals::zero(),
        episode.start >= cutoff ==> window_share(episode, cutoff) == share_of(episode),
        episode.start <= cutoff <= episode.end ==> all_ms(window_share(episode, cutoff)) == all_ms(
            share_of(episode),
        ) - (cutoff - episode.start),
        0 <= all_ms(window_share(episode, cutoff)) <= episode.end - episode.start,
        episode.end >= cutoff ==> all_ms(window_share(episode, cutoff)) <= episode.end - cutoff,
        episode.end >= cutoff ==> window_share(episode, cutoff).episode_count == 1,
{
}

/// A window that begins later never counts more.
pub proof fn law_later_cutoff_counts_less(episodes: Seq<Episode>, early: u64, late: u64)
    requires
        early <= late,
        ordered(episodes, early),
    ensures
        totals(episodes, late).at_most(totals(episodes, early)),
    decreases episodes.len(),
{
    if episodes.len() > 0 {
        let init = episodes.drop_last();
        lemma_ordered_drop_last(episodes, early);
        law_later_cutoff_counts_less(init, early, late);
        let last = episodes[episodes.len() - 1];
        assert(last == episodes.last());
    }
}

/// If the last midnight is not over a week ago, today's report counts no more
/// than the week's.
pub proof fn law_today_within_week(episodes: Seq<Episode>, now: u64, midnight: Option<u64>)
    requires
        midnight matches Some(ms) ==> ms + 604_800_000 >= now,
        ordered(episodes, cutoff_of(ReportRange::Week, now, midnight)),
    ensures
        totals(episodes, cutoff_of(ReportRange::Today, now, midnight)).at_most(
            totals(episodes, cutoff_of(ReportRange::Week, now, midnight)),
        ),
{
    law_later_cutoff_counts_less(
        episodes,
        cutoff_of(ReportRange::Week, now, midnight),
        cutoff_of(ReportRange::Today, now, midnight),
    );
}

/// Episodes that a recorder hands out never end before they start, so every
/// window of them is in order.
pub proof fn law_recorded_episodes_are_ordered(episodes: Seq<Episode>, cutoff: u64)
    requires
        forall|i: int|
            0 <= i < episodes.len() ==> exists|open: Map<EpisodeKind, u64>, now: u64|
                completed(open, (#[trigger] episodes[i]).kind, now) == Some(episodes[i]),
    ensures
        ordered(episodes, cutoff),
{
}

} // verus!
