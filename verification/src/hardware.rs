//! What entering and leaving low-power mode do to the knob files.
//!
//! The files are a map from paths to contents. Reads and writes are granted or
//! refused per path, and a granted write replaces the content.

use vstd::prelude::*;

use crate::low_power::{
    enter_begin, enter_next, enter_value, enter_written, exit_begin, exit_next, exit_written,
    inactive, knobs_of, target,
};
use crate::low_power::law_every_device_has_its_knobs_turned;
use crate::low_power::{ControllerView, DeviceView, EnterView, EntryView, ExitView};
use crate::text::{is_white, trimmed};

verus! {

/// The content of every knob file.
pub type Files = Map<Seq<u8>, Seq<char>>;

/// The devices present and the paths whose reads and writes are granted.
pub struct Machine {
    pub devices: Seq<DeviceView>,
    pub readable: Set<Seq<u8>>,
    pub writable: Set<Seq<u8>>,
}

impl Machine {
    /// What reading `path` gives.
    pub open spec fn read(self, files: Files, path: Seq<u8>) -> Option<Seq<char>> {
        if self.readable.contains(path) && files.contains_key(path) {
            Some(files[path])
        } else {
            None
        }
    }

    /// The files after `value` was written to `path`, if the write is granted.
    pub open spec fn write(self, files: Files, path: Seq<u8>, value: Seq<char>) -> Files {
        if self.writable.contains(path) {
            files.insert(path, value)
        } else {
            files
        }
    }
}

/// How many file accesses are at most ahead of a step of entering.
pub open spec fn enter_measure(machine: Machine, step: EnterView) -> nat {
    match step {
        EnterView::Finished { .. } => 0,
        EnterView::Discover => 2 * knobs_of(machine.devices).len() + 1,
        EnterView::Read { knobs, .. } => 2 * knobs.len(),
        EnterView::Write { knobs, .. } => if knobs.len() == 0 {
            0
        } else {
            (2 * knobs.len() - 1) as nat
        },
    }
}

/// Carries entering out from `step` on: the controller, the number of knobs
/// changed, and the files at the end.
pub open spec fn run_enter(machine: Machine, step: EnterView, files: Files) -> (
    ControllerView,
    nat,
    Files,
)
    decreases enter_measure(machine, step),
{
    match step {
        EnterView::Finished { controller, changed } => (controller, changed, files),
        EnterView::Discover => run_enter(
            machine,
            enter_next(knobs_of(machine.devices), Seq::empty()),
            files,
        ),
        EnterView::Read { knobs, taken } => if knobs.len() == 0 {
            (inactive(), 0, files)
        } else {
            run_enter(machine, enter_value(knobs, taken, machine.read(files, knobs.first())), files)
        },
        EnterView::Write { knobs, taken, original } => if knobs.len() == 0 {
            (inactive(), 0, files)
        } else {
            run_enter(
                machine,
                enter_written(knobs, taken, original, machine.writable.contains(knobs.first())),
                machine.write(files, knobs.first(), target()),
            )
        },
    }
}

/// How many file accesses are ahead of a step of leaving.
pub open spec fn exit_measure(step: ExitView) -> nat {
    match step {
        ExitView::Finished { .. } => 0,
        ExitView::Restore { entries, .. } => entries.len(),
    }
}

/// Carries leaving out from `step` on: the controller, the number of knobs
/// restored, and the files at the end.
pub open spec fn run_exit(machine: Machine, step: ExitView, files: Files) -> (
    ControllerView,
    nat,
    Files,
)
    decreases exit_measure(step),
{
    match step {
        ExitView::Finished { controller, restored } => (controller, restored, files),
        ExitView::Restore { entries, restored } => if entries.len() == 0 {
            (inactive(), 0, files)
        } else {
            run_exit(
                machine,
                exit_written(
                    entries,
                    restored,
                    machine.writable.contains(entries.first().path),
                ),
                machine.write(files, entries.first().path, entries.first().original),
            )
        },
    }
}

/// `taken` records how `files` came from `before`: each recorded knob holds
/// the target value and held the recorded one, which was another, no knob is
/// recorded twice, and every other file is as it was.
pub open spec fn accounts(
    machine: Machine,
    before: Files,
    files: Files,
    taken: Seq<EntryView>,
) -> bool {
    &&& files.dom() == before.dom()
    &&& forall|i: int|
        0 <= i < taken.len() ==> {
            let entry = #[trigger] taken[i];
            &&& machine.readable.contains(entry.path)
            &&& machine.writable.contains(entry.path)
            &&& before.contains_key(entry.path)
            &&& before[entry.path] == entry.original
            &&& trimmed(entry.original) != target()
            &&& files[entry.path] == target()
        }
    &&& forall|i: int, j: int|
        0 <= i < j < taken.len() ==> (#[trigger] taken[i]).path != (#[trigger] taken[j]).path
    &&& forall|path: Seq<u8>|
        #![trigger files[path]]
        (forall|i: int| 0 <= i < taken.len() ==> (#[trigger] taken[i]).path != path)
            ==> files[path] == before[path]
}

proof fn lemma_target_trimmed()
    ensures
        trimmed(target()) == target(),
{
    reveal_strlit("auto");
    assert(!is_white(target().first()));
    assert(!is_white(target().last()));
}

/// Whether a step of entering is sound for files that came from `before`.
spec fn enter_sound(machine: Machine, before: Files, step: EnterView, files: Files) -> bool {
    match step {
        EnterView::Finished { controller, changed } => {
            &&& controller.active
            &&& changed == controller.snapshot.len()
            &&& accounts(machine, before, files, controller.snapshot)
        },
        EnterView::Discover => files == before,
        EnterView::Read { knobs, taken } => knobs.len() > 0 && accounts(
            machine,
            before,
            files,
            taken,
        ),
        EnterView::Write { knobs, taken, original } => {
            &&& knobs.len() > 0
            &&& accounts(machine, before, files, taken)
            &&& machine.read(files, knobs.first()) == Some(original)
            &&& trimmed(original) != target()
        },
    }
}

proof fn lemma_enter_accounts(machine: Machine, before: Files, step: EnterView, files: Files)
    requires
        enter_sound(machine, before, step, files),
    ensures
        ({
            let (controller, changed, after) = run_enter(machine, step, files);
            &&& controller.active
            &&& changed == controller.snapshot.len()
            &&& accounts(machine, before, after, controller.snapshot)
        }),
    decreases enter_measure(machine, step),
{
    match step {
        EnterView::Finished { .. } => {},
        EnterView::Discover => {
            lemma_enter_accounts(
                machine,
                before,
                enter_next(knobs_of(machine.devices), Seq::empty()),
                files,
            );
        },
        EnterView::Read { knobs, taken } => {
            let next = enter_value(knobs, taken, machine.read(files, knobs.first()));
            lemma_enter_accounts(machine, before, next, files);
        },
        EnterView::Write { knobs, taken, original } => {
            let path = knobs.first();
            let ok = machine.writable.contains(path);
            let after = machine.write(files, path, target());
            if ok {
                let entry = EntryView { path, original };
                let kept = taken.push(entry);
                lemma_target_trimmed();
                assert forall|i: int| 0 <= i < taken.len() implies (#[trigger] taken[i]).path
                    != path by {
                    if taken[i].path == path {
                        assert(files[path] == target());
                    }
                }
                assert(files[path] == before[path]);
                assert(after.dom() =~= before.dom());
                assert forall|p: Seq<u8>|
                    #![trigger after[p]]
                    (forall|i: int| 0 <= i < kept.len() ==> (#[trigger] kept[i]).path
                        != p) implies after[p] == before[p] by {
                    assert(kept[kept.len() - 1].path != p);
                    assert forall|i: int| 0 <= i < taken.len() implies (#[trigger] taken[i]).path
                        != p by {
                        assert(kept[i].path != p);
                    }
                    assert(files[p] == before[p]);
                }
                assert(accounts(machine, before, after, kept));
            }
            lemma_enter_accounts(
                machine,
                before,
                enter_written(knobs, taken, original, ok),
                after,
            );
        },
    }
}

proof fn lemma_exit_restores(
    machine: Machine,
    before: Files,
    files: Files,
    entries: Seq<EntryView>,
    restored: nat,
)
    requires
        accounts(machine, before, files, entries),
    ensures
        run_exit(machine, exit_next(entries, restored), files) == (
            inactive(),
            restored + entries.len(),
            before,
        ),
    decreases entries.len(),
{
    if entries.len() == 0 {
        assert(files =~= before);
    } else {
        let entry = entries.first();
        let rest = entries.drop_first();
        let after = machine.write(files, entry.path, entry.original);
        assert(entry == entries[0]);
        assert(after.dom() =~= before.dom());
        assert forall|i: int| 0 <= i < rest.len() implies {
            let e = #[trigger] rest[i];
            &&& machine.readable.contains(e.path)
            &&& machine.writable.contains(e.path)
            &&& before.contains_key(e.path)
            &&& before[e.path] == e.original
            &&& trimmed(e.original) != target()
            &&& after[e.path] == target()
        } by {
            assert(rest[i] == entries[i + 1]);
            assert(entries[0].path != entries[i + 1].path);
        }
        assert forall|p: Seq<u8>|
            #![trigger after[p]]
            (forall|i: int| 0 <= i < rest.len() ==> (#[trigger] rest[i]).path
                != p) implies after[p] == before[p] by {
            if p != entry.path {
                assert forall|i: int| 0 <= i < entries.len() implies (#[trigger] entries[i]).path
                    != p by {
                    if i > 0 {
                        assert(rest[i - 1] == entries[i]);
                    }
                }
                assert(files[p] == before[p]);
            }
        }
        lemma_exit_restores(machine, before, after, rest, restored + 1);
    }
}

/// Leaving low-power mode puts every file back as it was before low-power mode
/// was entered, whichever reads and writes were refused, restores as many knobs
/// as were changed, and leaves the controller as new.
pub proof fn law_exit_undoes_enter(machine: Machine, controller: ControllerView, files: Files)
    requires
        !controller.active,
    ensures
        ({
            let (entered, changed, during) = run_enter(machine, enter_begin(controller), files);
            let (left, restored, after) = run_exit(machine, exit_begin(entered), during);
            &&& after == files
            &&& restored == changed
            &&& left == inactive()
        }),
{
    lemma_enter_accounts(machine, files, enter_begin(controller), files);
    let (entered, changed, during) = run_enter(machine, enter_begin(controller), files);
    lemma_exit_restores(machine, files, during, entered.snapshot, 0);
}

/// Entering low-power mode turns it on, and the snapshot accounts for every
/// change: it holds the knobs that were changed, with their former values, and
/// no others.
pub proof fn law_enter_records_changes(machine: Machine, controller: ControllerView, files: Files)
    requires
        !controller.active,
    ensures
        ({
            let (entered, changed, during) = run_enter(machine, enter_begin(controller), files);
            &&& entered.active
            &&& changed == entered.snapshot.len()
            &&& accounts(machine, files, during, entered.snapshot)
        }),
{
    lemma_enter_accounts(machine, files, enter_begin(controller), files);
}

/// The knobs that a step of entering still has before it.
spec fn ahead(machine: Machine, step: EnterView) -> Seq<Seq<u8>> {
    match step {
        EnterView::Finished { .. } => Seq::empty(),
        EnterView::Discover => knobs_of(machine.devices),
        EnterView::Read { knobs, .. } => knobs,
        EnterView::Write { knobs, .. } => knobs,
    }
}

proof fn lemma_enter_turns(machine: Machine, step: EnterView, files: Files, path: Seq<u8>)
    requires
        step matches EnterView::Read { knobs, .. } ==> knobs.len() > 0,
        step matches EnterView::Write { knobs, .. } ==> knobs.len() > 0,
    ensures
        ({
            let after = run_enter(machine, step, files).2;
            &&& trimmed(files[path]) == target() ==> trimmed(after[path]) == target()
            &&& ahead(machine, step).contains(path) && machine.writable.contains(path)
                && machine.read(files, path) is Some ==> trimmed(after[path]) == target()
            &&& !ahead(machine, step).contains(path) ==> after[path] == files[path]
        }),
    decreases enter_measure(machine, step),
{
    lemma_target_trimmed();
    match step {
        EnterView::Finished { .. } => {},
        EnterView::Discover => {
            lemma_enter_turns(
                machine,
                enter_next(knobs_of(machine.devices), Seq::empty()),
                files,
                path,
            );
        },
        EnterView::Read { knobs, taken } => {
            lemma_first_or_rest(knobs, path);
            lemma_enter_turns(
                machine,
                enter_value(knobs, taken, machine.read(files, knobs.first())),
                files,
                path,
            );
        },
        EnterView::Write { knobs, taken, original } => {
            lemma_first_or_rest(knobs, path);
            lemma_enter_turns(
                machine,
                enter_written(knobs, taken, original, machine.writable.contains(knobs.first())),
                machine.write(files, knobs.first(), target()),
                path,
            );
        },
    }
}

proof fn lemma_first_or_rest(knobs: Seq<Seq<u8>>, path: Seq<u8>)
    requires
        knobs.len() > 0,
    ensures
        knobs.contains(path) <==> (path == knobs.first() || knobs.drop_first().contains(path)),
{
    if knobs.contains(path) {
        let i = choose|i: int| 0 <= i < knobs.len() && knobs[i] == path;
        if i > 0 {
            assert(knobs.drop_first()[i - 1] == path);
        }
    }
    if knobs.drop_first().contains(path) {
        let i = choose|i: int|
            0 <= i < knobs.drop_first().len() && knobs.drop_first()[i] == path;
        assert(knobs[i + 1] == path);
    }
    assert(knobs.contains(knobs[0]));
}

/// Entering low-power mode brings every knob that can be read and written to
/// the target value, and changes no file that is not a knob of a discovered
/// device.
pub proof fn law_enter_turns_knobs(
    machine: Machine,
    controller: ControllerView,
    files: Files,
    path: Seq<u8>,
)
    requires
        !controller.active,
    ensures
        ({
            let during = run_enter(machine, enter_begin(controller), files).2;
            let knobs = knobs_of(machine.devices);
            &&& knobs.contains(path) && machine.writable.contains(path) && machine.read(
                files,
                path,
            ) is Some ==> trimmed(during[path]) == target()
            &&& !knobs.contains(path) ==> during[path] == files[path]
        }),
{
    lemma_enter_turns(machine, enter_begin(controller), files, path);
}

/// Whether `path` is a knob of one of the devices.
pub open spec fn is_knob_of(devices: Seq<DeviceView>, path: Seq<u8>) -> bool {
    exists|i: int|
        0 <= i < devices.len() && (path == (#[trigger] devices[i]).power_control || Some(path)
            == devices[i].power_dpm_force_performance_level)
}

/// Entering low-power mode writes `auto` to every knob of every device that can
/// be read and written and does not hold `auto` already, and changes no other
/// file. The snapshot holds exactly the files that were changed, each once and
/// with its former content, and their number is what is reported.
pub proof fn law_enter_sets_every_knob_to_auto(
    machine: Machine,
    controller: ControllerView,
    files: Files,
    path: Seq<u8>,
)
    requires
        !controller.active,
    ensures
        ({
            let (entered, changed, during) = run_enter(machine, enter_begin(controller), files);
            let auto = seq!['a', 'u', 't', 'o'];
            let turned = is_knob_of(machine.devices, path) && machine.readable.contains(path)
                && machine.writable.contains(path) && files.contains_key(path) && trimmed(
                files[path],
            ) != auto;
            &&& entered.active
            &&& turned ==> during[path] == auto
            &&& !turned ==> during[path] == files[path]
            &&& during.dom() == files.dom()
            &&& turned <==> entered.snapshot.contains(EntryView { path, original: files[path] })
            &&& forall|i: int|
                0 <= i < entered.snapshot.len() ==> (#[trigger] entered.snapshot[i]).original
                    == files[entered.snapshot[i].path]
            &&& forall|i: int, j: int|
                0 <= i < j < entered.snapshot.len() ==> (#[trigger] entered.snapshot[i]).path != (
                #[trigger] entered.snapshot[j]).path
            &&& changed == entered.snapshot.len()
        }),
{
    reveal_strlit("auto");
    let auto = seq!['a', 'u', 't', 'o'];
    assert(target() =~= auto);
    lemma_target_trimmed();
    law_enter_records_changes(machine, controller, files);
    law_enter_turns_knobs(machine, controller, files, path);
    law_every_device_has_its_knobs_turned(machine.devices);
    let (entered, changed, during) = run_enter(machine, enter_begin(controller), files);
    let taken = entered.snapshot;
    let knobs = knobs_of(machine.devices);
    let turned = is_knob_of(machine.devices, path) && machine.readable.contains(path)
        && machine.writable.contains(path) && files.contains_key(path) && trimmed(files[path])
        != auto;
    assert(is_knob_of(machine.devices, path) <==> knobs.contains(path));
    if exists|i: int| 0 <= i < taken.len() && (#[trigger] taken[i]).path == path {
        let i = choose|i: int| 0 <= i < taken.len() && (#[trigger] taken[i]).path == path;
        let entry = taken[i];
        assert(during[path] == target());
        assert(entry == (EntryView { path, original: files[path] }));
        assert(trimmed(files[path]) != auto);
        assert(during[path] != files[path]);
        assert(turned);
    } else {
        assert(during[path] == files[path]);
        if taken.contains(EntryView { path, original: files[path] }) {
            let k = choose|k: int|
                0 <= k < taken.len() && taken[k] == (EntryView { path, original: files[path] });
            assert(taken[k].path == path);
        }
    }
}

/// After leaving, low-power mode is off and nothing is left to restore, however
/// the writes went. No more knobs are counted as restored than were recorded.
pub proof fn law_leaving_turns_low_power_off(
    machine: Machine,
    controller: ControllerView,
    files: Files,
)
    requires
        controller.wf(),
    ensures
        ({
            let (left, restored, after) = run_exit(machine, exit_begin(controller), files);
            &&& !left.active
            &&& left.snapshot.len() == 0
            &&& restored <= controller.snapshot.len()
        }),
{
    if controller.active {
        lemma_exit_ends(machine, controller.snapshot, 0, files);
    }
}

proof fn lemma_exit_ends(machine: Machine, entries: Seq<EntryView>, restored: nat, files: Files)
    ensures
        ({
            let (left, count, after) = run_exit(machine, exit_next(entries, restored), files);
            &&& !left.active
            &&& left.snapshot.len() == 0
            &&& restored <= count <= restored + entries.len()
        }),
    decreases entries.len(),
{
    if entries.len() > 0 {
        let path = entries.first().path;
        lemma_exit_ends(
            machine,
            entries.drop_first(),
            if machine.writable.contains(path) {
                restored + 1
            } else {
                restored
            },
            machine.write(files, path, entries.first().original),
        );
    }
}

/// Outside low-power mode nothing is recorded.
pub proof fn law_new_controller_is_off()
    ensures
        !inactive().active,
        inactive().snapshot.len() == 0,
{
}

/// Entering while low-power mode is on, and leaving while it is off, touch no
/// file and change nothing.
pub proof fn law_repeated_calls_do_nothing(
    machine: Machine,
    controller: ControllerView,
    files: Files,
)
    ensures
        controller.active ==> run_enter(machine, enter_begin(controller), files) == (
            controller,
            0nat,
            files,
        ),
        !controller.active ==> run_exit(machine, exit_begin(controller), files) == (
            controller,
            0nat,
            files,
        ),
{
}

/// Leaving writes every recorded knob whose write is granted back to its former
/// value and counts it, whichever other writes are refused, and changes no
/// other file.
pub proof fn law_exit_keeps_trying(
    machine: Machine,
    entries: Seq<EntryView>,
    files: Files,
    path: Seq<u8>,
)
    requires
        forall|i: int, j: int|
            0 <= i < j < entries.len() ==> (#[trigger] entries[i]).path != (
            #[trigger] entries[j]).path,
    ensures
        ({
            let controller = ControllerView { snapshot: entries, active: true };
            let (left, restored, after) = run_exit(machine, exit_begin(controller), files);
            &&& left == inactive()
            &&& restored == granted(machine, entries)
            &&& forall|i: int|
                0 <= i < entries.len() && machine.writable.contains((#[trigger] entries[i]).path)
                    ==> after[entries[i].path] == entries[i].original
            &&& !machine.writable.contains(path) || (forall|i: int|
                0 <= i < entries.len() ==> (#[trigger] entries[i]).path != path) ==> after[path]
                == files[path]
        }),
{
    lemma_exit_granted(machine, entries, files, path, 0);
}

/// How many of the recorded knobs can be written.
pub open spec fn granted(machine: Machine, entries: Seq<EntryView>) -> nat
    decreases entries.len(),
{
    if entries.len() == 0 {
        0
    } else {
        granted(machine, entries.drop_first()) + if machine.writable.contains(
            entries.first().path,
        ) {
            1nat
        } else {
            0nat
        }
    }
}

proof fn lemma_exit_granted(
    machine: Machine,
    entries: Seq<EntryView>,
    files: Files,
    path: Seq<u8>,
    restored: nat,
)
    requires
        forall|i: int, j: int|
            0 <= i < j < entries.len() ==> (#[trigger] entries[i]).path != (
            #[trigger] entries[j]).path,
    ensures
        ({
            let (left, count, after) = run_exit(machine, exit_next(entries, restored), files);
            &&& left == inactive()
            &&& count == restored + granted(machine, entries)
            &&& forall|i: int|
                0 <= i < entries.len() && machine.writable.contains((#[trigger] entries[i]).path)
                    ==> after[entries[i].path] == entries[i].original
            &&& !machine.writable.contains(path) || (forall|i: int|
                0 <= i < entries.len() ==> (#[trigger] entries[i]).path != path) ==> after[path]
                == files[path]
        }),
    decreases entries.len(),
{
    if entries.len() > 0 {
        let entry = entries.first();
        let rest = entries.drop_first();
        let next = machine.write(files, entry.path, entry.original);
        let count = if machine.writable.contains(entry.path) {
            restored + 1
        } else {
            restored
        };
        assert(entry == entries[0]);
        assert forall|i: int, j: int| 0 <= i < j < rest.len() implies (#[trigger] rest[i]).path
            != (#[trigger] rest[j]).path by {
            assert(rest[i] == entries[i + 1] && rest[j] == entries[j + 1]);
        }
        assert forall|i: int| 0 <= i < rest.len() implies (#[trigger] rest[i]).path
            != entry.path by {
            assert(rest[i] == entries[i + 1]);
        }
        lemma_exit_granted(machine, rest, next, path, count);
        lemma_exit_granted(machine, rest, next, entry.path, count);
        let after = run_exit(machine, exit_next(entries, restored), files).2;
        assert(after == run_exit(machine, exit_next(rest, count), next).2);
        assert forall|i: int|
            0 <= i < entries.len() && machine.writable.contains(
                (#[trigger] entries[i]).path,
            ) implies after[entries[i].path] == entries[i].original by {
            if i > 0 {
                assert(rest[i - 1] == entries[i]);
            }
        }
        if forall|i: int| 0 <= i < entries.len() ==> (#[trigger] entries[i]).path != path {
            assert forall|i: int| 0 <= i < rest.len() implies (#[trigger] rest[i]).path
                != path by {
                assert(rest[i] == entries[i + 1]);
            }
        }
    }
}

} // verus!
