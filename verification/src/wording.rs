//! What can be read off the texts that are shown.

use vstd::prelude::*;
use vstd::string::*;

use crate::ipc::exchange::{lemma_lines_extend, lemma_lines_split, text_of_lines};
use crate::report::{duration_text, report_text};
use crate::report::{format_duration, render_report};
use crate::report::{ReportRange, ReportSummary};
use crate::text::{decimal, framed, law_decimal_reads_back, segments};

verus! {

/// A duration of an hour or more is shown as its whole hours and the whole
/// minutes left over, a shorter one of a minute or more as its whole minutes, and
/// any other as its whole seconds.
pub proof fn law_duration_is_cut_to_whole_units(ms: nat)
    ensures
        ms >= 3_600_000 ==> exists|h: nat, m: nat|
            {
                &&& m < 60
                &&& 3_600_000 * h + 60_000 * m <= ms < 3_600_000 * h + 60_000 * (m + 1)
                &&& duration_text(ms) == #[trigger] decimal(h) + "h "@ + #[trigger] decimal(m)
                    + "m"@
            },
        60_000 <= ms < 3_600_000 ==> exists|m: nat|
            60_000 * m <= ms < 60_000 * (m + 1) && duration_text(ms) == #[trigger] decimal(m)
                + "m"@,
        ms < 60_000 ==> exists|s: nat|
            1000 * s <= ms < 1000 * (s + 1) && duration_text(ms) == #[trigger] decimal(s) + "s"@,
{
    let secs = ms / 1000;
    let h = secs / 3600;
    let m = (secs % 3600) / 60;
    if ms >= 3_600_000 {
        assert(duration_text(ms) == decimal(h) + "h "@ + decimal(m) + "m"@);
        assert(3_600_000 * h + 60_000 * m <= ms < 3_600_000 * h + 60_000 * (m + 1));
    } else if ms >= 60_000 {
        assert(duration_text(ms) == decimal(m) + "m"@);
        assert(60_000 * m <= ms < 60_000 * (m + 1));
    } else {
        assert(duration_text(ms) == decimal(secs) + "s"@);
        assert(1000 * secs <= ms < 1000 * (secs + 1));
    }
}

/// The text of a duration can be read back: hours and minutes of an hour or more,
/// minutes of less, seconds of less than a minute, each cut to whole units.
pub proof fn law_formatted_duration(ms: u64, text: String)
    requires
        call_ensures(format_duration, (ms,), text),
    ensures
        ms >= 3_600_000 ==> exists|h: nat, m: nat|
            {
                &&& m < 60
                &&& 3_600_000 * h + 60_000 * m <= ms < 3_600_000 * h + 60_000 * (m + 1)
                &&& text@ == #[trigger] decimal(h) + "h "@ + #[trigger] decimal(m) + "m"@
            },
        60_000 <= ms < 3_600_000 ==> exists|m: nat|
            60_000 * m <= ms < 60_000 * (m + 1) && text@ == #[trigger] decimal(m) + "m"@,
        ms < 60_000 ==> exists|s: nat|
            1000 * s <= ms < 1000 * (s + 1) && text@ == #[trigger] decimal(s) + "s"@,
{
    law_duration_is_cut_to_whole_units(ms as nat);
}

/// A rendered report shows, on a line of its own, each kind with its duration as
/// `format_duration` gives it.
pub proof fn law_rendered_report(
    range: ReportRange,
    summary: ReportSummary,
    kwh: &str,
    display_off: String,
    low_power: String,
    suspend: String,
    text: String,
)
    requires
        !kwh@.contains('\n'),
        call_ensures(format_duration, (summary.display_off_ms,), display_off),
        call_ensures(format_duration, (summary.low_power_ms,), low_power),
        call_ensures(format_duration, (summary.suspend_ms,), suspend),
        call_ensures(render_report, (range, &summary, kwh), text),
    ensures
        ({
            let lines = segments(text@);
            &&& lines.len() == if summary.episode_count > 0 {
                10int
            } else {
                9
            }
            &&& lines[0] == "Stasis Report"@
            &&& range == ReportRange::Today ==> lines[2] == "Today"@
            &&& range == ReportRange::Week ==> lines[2] == "This Week"@
            &&& lines[3] == "  Display off:   "@ + display_off@
            &&& lines[4] == "  Low power:     "@ + low_power@
            &&& lines[5] == "  Suspended:     "@ + suspend@
            &&& summary.episode_count > 0 ==> {
                &&& lines[7] == "  Estimated energy saved: "@ + kwh@ + " kWh"@
                &&& lines[8] == "  Estimate confidence:    low (estimated)"@
            }
            &&& summary.episode_count == 0 ==> lines[7] == "  (no idle episodes recorded yet)"@
        }),
{
    law_report_has_a_line_for_each_kind(range, summary, kwh@);
}

proof fn lemma_no_line_feed(a: Seq<char>, b: Seq<char>)
    requires
        !a.contains('\n'),
        !b.contains('\n'),
    ensures
        !(a + b).contains('\n'),
{
    if (a + b).contains('\n') {
        let i = choose|i: int| 0 <= i < (a + b).len() && (a + b)[i] == '\n';
        if i < a.len() {
            assert(a[i] == '\n');
        } else {
            assert(b[i - a.len()] == '\n');
        }
    }
}

proof fn lemma_decimal_has_no_line_feed(n: nat)
    ensures
        !decimal(n).contains('\n'),
{
    law_decimal_reads_back(n);
    if decimal(n).contains('\n') {
        let i = choose|i: int| 0 <= i < decimal(n).len() && decimal(n)[i] == '\n';
        assert('0' <= decimal(n)[i]);
    }
}

proof fn lemma_duration_has_no_line_feed(ms: nat)
    ensures
        !duration_text(ms).contains('\n'),
{
    let secs = ms / 1000;
    let h = secs / 3600;
    let m = (secs % 3600) / 60;
    reveal_strlit("h ");
    reveal_strlit("m");
    reveal_strlit("s");
    lemma_decimal_has_no_line_feed(h);
    lemma_decimal_has_no_line_feed(m);
    lemma_decimal_has_no_line_feed(secs);
    lemma_no_line_feed(decimal(h), "h "@);
    lemma_no_line_feed(decimal(h) + "h "@, decimal(m));
    lemma_no_line_feed(decimal(h) + "h "@ + decimal(m), "m"@);
    lemma_no_line_feed(decimal(m), "m"@);
    lemma_no_line_feed(decimal(secs), "s"@);
}

/// The first six lines of every report.
spec fn report_head(range: ReportRange, summary: ReportSummary) -> Seq<Seq<char>> {
    seq![
        "Stasis Report"@,
        Seq::empty(),
        if range == ReportRange::Week {
            "This Week"@
        } else {
            "Today"@
        },
        "  Display off:   "@ + duration_text(summary.display_off_ms as nat),
        "  Low power:     "@ + duration_text(summary.low_power_ms as nat),
        "  Suspended:     "@ + duration_text(summary.suspend_ms as nat),
    ]
}

proof fn lemma_head(range: ReportRange, summary: ReportSummary)
    ensures
        forall|i: int|
            0 <= i < 6 ==> !(#[trigger] report_head(range, summary)[i]).contains('\n'),
        text_of_lines(report_head(range, summary)) == "Stasis Report\n"@ + "\n"@ + (match range {
            ReportRange::Today => "Today"@,
            ReportRange::Week => "This Week"@,
        }) + "\n"@ + ("  Display off:   "@ + duration_text(summary.display_off_ms as nat) + "\n"@
            + "  Low power:     "@ + duration_text(summary.low_power_ms as nat) + "\n"@
            + "  Suspended:     "@ + duration_text(summary.suspend_ms as nat) + "\n"@),
{
    reveal_strlit("Stasis Report");
    reveal_strlit("Stasis Report\n");
    reveal_strlit("\n");
    reveal_strlit("Today");
    reveal_strlit("This Week");
    reveal_strlit("  Display off:   ");
    reveal_strlit("  Low power:     ");
    reveal_strlit("  Suspended:     ");
    let lines = report_head(range, summary);
    let title = lines[0];
    let label = lines[2];
    let off = lines[3];
    let low = lines[4];
    let suspended = lines[5];
    lemma_duration_has_no_line_feed(summary.display_off_ms as nat);
    lemma_duration_has_no_line_feed(summary.low_power_ms as nat);
    lemma_duration_has_no_line_feed(summary.suspend_ms as nat);
    lemma_no_line_feed("  Display off:   "@, duration_text(summary.display_off_ms as nat));
    lemma_no_line_feed("  Low power:     "@, duration_text(summary.low_power_ms as nat));
    lemma_no_line_feed("  Suspended:     "@, duration_text(summary.suspend_ms as nat));
    let feed = "\n"@;
    assert(framed(title) =~= "Stasis Report\n"@);
    assert(framed(Seq::<char>::empty()) =~= feed);
    assert(framed(label) =~= label + feed);
    assert(framed(off) =~= off + feed);
    assert(framed(low) =~= low + feed);
    assert(framed(suspended) =~= suspended + feed);
    let none = Seq::<Seq<char>>::empty();
    assert(text_of_lines(none) == Seq::<char>::empty());
    let one = none.push(title);
    let two = one.push(Seq::empty());
    let three = two.push(label);
    let four = three.push(off);
    let five = four.push(low);
    let six = five.push(suspended);
    lemma_lines_extend(none, title);
    lemma_lines_extend(one, Seq::empty());
    lemma_lines_extend(two, label);
    lemma_lines_extend(three, off);
    lemma_lines_extend(four, low);
    lemma_lines_extend(five, suspended);
    assert(six =~= lines);
    let start = "Stasis Report\n"@ + feed + label + feed;
    assert(text_of_lines(three) =~= start);
    assert(text_of_lines(four) =~= start + (off + feed));
    assert(text_of_lines(five) =~= start + (off + feed + low + feed));
    assert(text_of_lines(six) =~= start + (off + feed + low + feed + suspended + feed));
    assert(off + feed + low + feed + suspended + feed =~= "  Display off:   "@ + duration_text(
        summary.display_off_ms as nat,
    ) + feed + "  Low power:     "@ + duration_text(summary.low_power_ms as nat) + feed
        + "  Suspended:     "@ + duration_text(summary.suspend_ms as nat) + feed);
}

/// Split at its line feeds, a report is a title, a blank line, the name of the
/// range and one line for each kind with the duration of that kind. Then comes a
/// blank line and, if there were episodes, the energy estimate and how far it can
/// be trusted, else a line that says that there were none.
pub proof fn law_report_has_a_line_for_each_kind(
    range: ReportRange,
    summary: ReportSummary,
    kwh: Seq<char>,
)
    requires
        !kwh.contains('\n'),
    ensures
        summary.episode_count > 0 ==> segments(report_text(range, summary, kwh)) == seq![
            "Stasis Report"@,
            Seq::empty(),
            if range == ReportRange::Week {
                "This Week"@
            } else {
                "Today"@
            },
            "  Display off:   "@ + duration_text(summary.display_off_ms as nat),
            "  Low power:     "@ + duration_text(summary.low_power_ms as nat),
            "  Suspended:     "@ + duration_text(summary.suspend_ms as nat),
            Seq::empty(),
            "  Estimated energy saved: "@ + kwh + " kWh"@,
            "  Estimate confidence:    low (estimated)"@,
            Seq::empty(),
        ],
        summary.episode_count == 0 ==> segments(report_text(range, summary, kwh)) == seq![
            "Stasis Report"@,
            Seq::empty(),
            if range == ReportRange::Week {
                "This Week"@
            } else {
                "Today"@
            },
            "  Display off:   "@ + duration_text(summary.display_off_ms as nat),
            "  Low power:     "@ + duration_text(summary.low_power_ms as nat),
            "  Suspended:     "@ + duration_text(summary.suspend_ms as nat),
            Seq::empty(),
            "  (no idle episodes recorded yet)"@,
            Seq::empty(),
        ],
{
    lemma_head(range, summary);
    let head = report_head(range, summary);
    let blank = Seq::<char>::empty();
    let seven = head.push(blank);
    lemma_lines_extend(head, blank);
    if summary.episode_count > 0 {
        reveal_strlit("\n  Estimated energy saved: ");
        reveal_strlit("  Estimated energy saved: ");
        reveal_strlit(" kWh\n");
        reveal_strlit(" kWh");
        reveal_strlit("  Estimate confidence:    ");
        reveal_strlit("low (estimated)");
        reveal_strlit("  Estimate confidence:    low (estimated)");
        reveal_strlit("\n");
        let energy = "  Estimated energy saved: "@ + kwh + " kWh"@;
        let trust = "  Estimate confidence:    low (estimated)"@;
        lemma_no_line_feed("  Estimated energy saved: "@, kwh);
        lemma_no_line_feed("  Estimated energy saved: "@ + kwh, " kWh"@);
        let eight = seven.push(energy);
        let nine = eight.push(trust);
        lemma_lines_extend(seven, energy);
        lemma_lines_extend(eight, trust);
        assert(framed(blank) + framed(energy) =~= "\n  Estimated energy saved: "@ + kwh + " kWh\n"@);
        assert(framed(trust) =~= "  Estimate confidence:    "@ + "low (estimated)"@ + "\n"@);
        let tail = "\n  Estimated energy saved: "@ + kwh + " kWh\n"@ + "  Estimate confidence:    "@
            + "low (estimated)"@ + "\n"@;
        assert(framed(blank) + framed(energy) + framed(trust) =~= tail);
        assert(text_of_lines(nine) =~= text_of_lines(head) + (framed(blank) + framed(energy)
            + framed(trust)));
        assert(text_of_lines(nine) == report_text(range, summary, kwh));
        assert forall|i: int| 0 <= i < nine.len() implies !(#[trigger] nine[i]).contains('\n') by {
            if i < 6 {
                assert(nine[i] == head[i]);
            }
        }
        lemma_lines_split(nine);
        assert(nine.push(blank) =~= segments(report_text(range, summary, kwh)));
    } else {
        reveal_strlit("\n  (no idle episodes recorded yet)\n");
        reveal_strlit("  (no idle episodes recorded yet)");
        let note = "  (no idle episodes recorded yet)"@;
        let eight = seven.push(note);
        lemma_lines_extend(seven, note);
        assert(framed(blank) + framed(note) =~= "\n  (no idle episodes recorded yet)\n"@);
        assert(text_of_lines(eight) =~= text_of_lines(head) + (framed(blank) + framed(note)));
        assert(text_of_lines(eight) == report_text(range, summary, kwh));
        assert forall|i: int| 0 <= i < eight.len() implies !(
        #[trigger] eight[i]).contains('\n') by {
            if i < 6 {
                assert(eight[i] == head[i]);
            }
        }
        lemma_lines_split(eight);
        assert(eight.push(blank) =~= segments(report_text(range, summary, kwh)));
    }
}

/// An estimate is trusted a little where there were episodes, and not at all
/// where there were none.
pub proof fn law_confidence_needs_episodes(summary: ReportSummary, confidence: &'static str)
    requires
        call_ensures(ReportSummary::confidence, (&summary,), confidence),
    ensures
        summary.episode_count > 0 ==> confidence@ == "low (estimated)"@,
        summary.episode_count == 0 ==> confidence@ == "none"@,
{
}

} // verus!
