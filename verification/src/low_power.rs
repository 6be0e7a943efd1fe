//! Conservative hardware power-down for the low-power idle phase.
//!
//! Entering low-power mode snapshots the current value of every supported
//! hardware knob, writes a power-saving value, and records exactly the knobs
//! whose write succeeded. Leaving it writes the recorded values back verbatim.
//!
//! Supported knobs, all best-effort:
//! - PCI display controllers: `power/control` -> `auto`;
//! - AMDGPU cards: `power_dpm_force_performance_level` -> `auto`.
//!
//! Nothing here touches a file. `enter` and `exit` answer with the file access
//! that is due next, and go on once they are told how it went.

use vstd::prelude::*;
use vstd::string::*;
use vstd::utf8::encode_utf8;

use crate::path::FilePath;
use crate::path::{as_dir, joined, lemma_below, lemma_two_below, opt_path, path_of};
use crate::text::{ascii_lowered, law_lowering_keeps_the_letter, opt_text, trimmed};
use crate::text::{contains_char, same_text, starts_with, to_ascii_lowercase, trim};

verus! {

// ---------------- discovery ----------------

/// What is known of one entry of `/sys/bus/pci/devices`.
#[derive(Debug)]
pub struct PciEntry {
    /// The entry's path.
    pub path: FilePath,
    /// The last component of the path, where it is UTF-8.
    pub name: Option<String>,
    /// The content of the entry's `class` file, where it can be read.
    pub class: Option<String>,
    /// Whether the entry itself holds `power_dpm_force_performance_level`.
    pub has_dpm: bool,
}

/// What is known of one entry of `/sys/class/drm`.
#[derive(Debug)]
pub struct DrmEntry {
    /// The entry's path.
    pub path: FilePath,
    /// The entry's name.
    pub name: String,
    /// The last component of what the entry's `device` link resolves to, where
    /// it resolves and the component is UTF-8.
    pub device_name: Option<String>,
    /// Whether `device/power_dpm_force_performance_level` exists.
    pub has_dpm: bool,
}

/// A GPU with the knobs that low-power mode turns.
#[derive(Debug)]
pub struct GpuDevice {
    pub power_control: FilePath,
    pub power_dpm_force_performance_level: Option<FilePath>,
}

/// A `GpuDevice` with its paths as bytes.
pub struct DeviceView {
    pub power_control: Seq<u8>,
    pub power_dpm_force_performance_level: Option<Seq<u8>>,
}

impl View for GpuDevice {
    type V = DeviceView;

    open spec fn view(&self) -> DeviceView {
        DeviceView {
            power_control: self.power_control@,
            power_dpm_force_performance_level: opt_path(self.power_dpm_force_performance_level),
        }
    }
}

/// The views of a list of devices.
pub open spec fn device_views(devices: Seq<GpuDevice>) -> Seq<DeviceView> {
    devices.map_values(|device: GpuDevice| device@)
}

/// Whether a `class` file names a display controller, `0x03xxxx` (`0x030000` is
/// VGA, `0x030200` a 3D controller, `0x038000` another display controller).
pub open spec fn is_display_class(class: Seq<char>) -> bool {
    "0x03"@.is_prefix_of(ascii_lowered(trimmed(class)))
}

/// `power_dpm_force_performance_level` below `dir`.
pub open spec fn dpm_below(dir: Seq<u8>) -> Seq<u8> {
    joined(dir, path_of("power_dpm_force_performance_level"))
}

/// Whether `entry` is the primary card device of the PCI device `pci_name` and
/// offers the DPM knob. Connectors and render nodes have a dash in their name.
pub open spec fn is_card_of(entry: DrmEntry, pci_name: Seq<char>) -> bool {
    &&& "card"@.is_prefix_of(entry.name@)
    &&& !entry.name@.contains('-')
    &&& entry.device_name matches Some(name) && name@ == pci_name
    &&& entry.has_dpm
}

/// The DPM knob of the first card of `pci_name`.
pub open spec fn first_card_dpm(entries: Seq<DrmEntry>, pci_name: Seq<char>) -> Option<Seq<u8>>
    decreases entries.len(),
{
    if entries.len() == 0 {
        None
    } else if is_card_of(entries.first(), pci_name) {
        Some(dpm_below(joined(entries.first().path@, path_of("device"))))
    } else {
        first_card_dpm(entries.drop_first(), pci_name)
    }
}

/// The DPM knob of a PCI device that the drm cards offer.
pub open spec fn drm_dpm(
    name: Option<Seq<char>>,
    entries: Option<Seq<DrmEntry>>,
) -> Option<Seq<u8>> {
    match (name, entries) {
        (Some(pci_name), Some(cards)) => first_card_dpm(cards, pci_name),
        _ => None,
    }
}

/// The `power/control` knob of a PCI entry.
pub open spec fn control_of(entry: PciEntry) -> Seq<u8> {
    joined(joined(entry.path@, path_of("power")), path_of("control"))
}

/// Whether the class of a PCI entry is known and a display class.
pub open spec fn is_display(entry: PciEntry) -> bool {
    entry.class matches Some(class) && is_display_class(class@)
}

/// The GPU that a PCI entry stands for, if its class is a display class. A
/// knob in the entry itself goes before one of a drm card.
pub open spec fn gpu_of(entry: PciEntry, cards: Option<Seq<DrmEntry>>) -> Option<DeviceView> {
    match entry.class {
        Some(class) if is_display_class(class@) => Some(
            DeviceView {
                power_control: control_of(entry),
                power_dpm_force_performance_level: if entry.has_dpm {
                    Some(dpm_below(entry.path@))
                } else {
                    drm_dpm(opt_text(entry.name), cards)
                },
            },
        ),
        _ => None,
    }
}

/// The GPUs among the PCI entries, in their order.
pub open spec fn gpus_of(entries: Seq<PciEntry>, cards: Option<Seq<DrmEntry>>) -> Seq<DeviceView>
    decreases entries.len(),
{
    if entries.len() == 0 {
        Seq::empty()
    } else {
        let init = gpus_of(entries.drop_last(), cards);
        match gpu_of(entries.last(), cards) {
            Some(gpu) => init.push(gpu),
            None => init,
        }
    }
}

/// The elements of an optional list.
pub open spec fn opt_seq<T>(v: Option<&Vec<T>>) -> Option<Seq<T>> {
    match v {
        Some(list) => Some(list@),
        None => None,
    }
}

/// Whether a `class` file names a display controller.
pub fn display_class(class: &str) -> (r: bool)
    ensures
        r == is_display_class(class@),
{
    starts_with(to_ascii_lowercase(trim(class)).as_str(), "0x03")
}

/// Locates `power_dpm_force_performance_level` by the drm cards that point back
/// to the PCI device `pci_name`. `None` stands for a name that is not UTF-8,
/// and for a drm directory that cannot be listed.
pub fn find_amdgpu_dpm_via_drm(
    pci_name: Option<&str>,
    entries: Option<&Vec<DrmEntry>>,
) -> (r: Option<FilePath>)
    ensures
        opt_path(r) == drm_dpm(
            match pci_name {
                Some(name) => Some(name@),
                None => None,
            },
            opt_seq(entries),
        ),
{
    match (pci_name, entries) {
        (Some(wanted), Some(cards)) => {
            let mut i: usize = 0;
            assert(cards@.skip(0) == cards@);
            while i < cards.len()
                invariant
                    pci_name == Some(wanted),
                    entries == Some(cards),
                    i <= cards.len(),
                    first_card_dpm(cards@, wanted@) == first_card_dpm(
                        cards@.skip(i as int),
                        wanted@,
                    ),
                decreases cards.len() - i,
            {
                let entry = &cards[i];
                assert(cards@.skip(i as int).first() == *entry);
                assert(cards@.skip(i as int).drop_first() == cards@.skip(i + 1));
                if starts_with(entry.name.as_str(), "card") && !contains_char(
                    entry.name.as_str(),
                    '-',
                ) {
                    if let Some(name) = &entry.device_name {
                        if same_text(name.as_str(), wanted) && entry.has_dpm {
                            let dpm = entry.path.join("device").join(
                                "power_dpm_force_performance_level",
                            );
                            return Some(dpm);
                        }
                    }
                }
                i = i + 1;
            }
            None
        },
        _ => None,
    }
}

/// The GPUs among the entries of `/sys/bus/pci/devices`. `None` stands for a
/// directory that cannot be listed.
pub fn discover_gpu_pci_devices(
    entries: Option<&Vec<PciEntry>>,
    cards: Option<&Vec<DrmEntry>>,
) -> (r: Vec<GpuDevice>)
    ensures
        device_views(r@) == (match entries {
            Some(list) => gpus_of(list@, opt_seq(cards)),
            None => Seq::empty(),
        }),
{
    let mut out: Vec<GpuDevice> = Vec::new();
    assert(device_views(out@) == Seq::<DeviceView>::empty());
    if let Some(list) = entries {
        let mut i: usize = 0;
        while i < list.len()
            invariant
                i <= list.len(),
                device_views(out@) == gpus_of(list@.take(i as int), opt_seq(cards)),
            decreases list.len() - i,
        {
            let entry = &list[i];
            let ghost before = out@;
            assert(list@.take(i + 1).drop_last() == list@.take(i as int));
            if let Some(class) = &entry.class {
                if display_class(class.as_str()) {
                    let dpm = if entry.has_dpm {
                        Some(entry.path.join("power_dpm_force_performance_level"))
                    } else {
                        match &entry.name {
                            Some(name) => find_amdgpu_dpm_via_drm(Some(name.as_str()), cards),
                            None => find_amdgpu_dpm_via_drm(None, cards),
                        }
                    };
                    let gpu = GpuDevice {
                        power_control: entry.path.join("power").join("control"),
                        power_dpm_force_performance_level: dpm,
                    };
                    out.push(gpu);
                    assert(device_views(out@) == device_views(before).push(gpu@));
                }
            }
            i = i + 1;
        }
        assert(list@.take(list@.len() as int) == list@);
    }
    out
}

/// Every display controller that is listed is found, with its own knobs, and
/// nothing else is found. If no two entries have the same `power/control`, none
/// is found twice.
pub proof fn law_display_controllers_are_found(
    entries: Seq<PciEntry>,
    cards: Option<Seq<DrmEntry>>,
)
    ensures
        forall|i: int|
            0 <= i < entries.len() && is_display(#[trigger] entries[i]) ==> gpus_of(
                entries,
                cards,
            ).contains(gpu_of(entries[i], cards)->0) && (gpu_of(entries[i], cards)->0).power_control
                == control_of(entries[i]),
        forall|j: int|
            0 <= j < gpus_of(entries, cards).len() ==> exists|i: int|
                0 <= i < entries.len() && is_display(#[trigger] entries[i]) && gpu_of(
                    entries[i],
                    cards,
                ) == Some(#[trigger] gpus_of(entries, cards)[j]),
        (forall|i: int, j: int|
            0 <= i < j < entries.len() ==> control_of(#[trigger] entries[i]) != control_of(
                #[trigger] entries[j],
            )) ==> forall|i: int, j: int|
            0 <= i < j < gpus_of(entries, cards).len() ==> (#[trigger] gpus_of(
                entries,
                cards,
            )[i]).power_control != (#[trigger] gpus_of(entries, cards)[j]).power_control,
    decreases entries.len(),
{
    if entries.len() > 0 {
        let init = entries.drop_last();
        let last = entries[entries.len() - 1];
        let before = gpus_of(init, cards);
        let all = gpus_of(entries, cards);
        assert(last == entries.last());
        law_display_controllers_are_found(init, cards);
        assert forall|i: int|
            0 <= i < entries.len() && is_display(#[trigger] entries[i]) implies all.contains(
            gpu_of(entries[i], cards)->0,
        ) by {
            let gpu = gpu_of(entries[i], cards)->0;
            if i < init.len() {
                assert(entries[i] == init[i]);
                let k = choose|k: int| 0 <= k < before.len() && before[k] == gpu;
                assert(all[k] == gpu);
            } else {
                assert(all[all.len() - 1] == gpu);
            }
        }
        assert forall|j: int| 0 <= j < all.len() implies exists|i: int|
            0 <= i < entries.len() && is_display(#[trigger] entries[i]) && gpu_of(entries[i], cards)
                == Some(#[trigger] all[j]) by {
            if j < before.len() {
                assert(all[j] == before[j]);
                let i = choose|i: int|
                    0 <= i < init.len() && is_display(#[trigger] init[i]) && gpu_of(init[i], cards)
                        == Some(before[j]);
                assert(entries[i] == init[i]);
            } else {
                assert(gpu_of(last, cards) == Some(all[j]));
                assert(entries[entries.len() - 1] == last);
            }
        }
        if forall|i: int, j: int|
            0 <= i < j < entries.len() ==> control_of(#[trigger] entries[i]) != control_of(
                #[trigger] entries[j],
            ) {
            assert forall|i: int, j: int| 0 <= i < j < init.len() implies control_of(
                #[trigger] init[i],
            ) != control_of(#[trigger] init[j]) by {
                assert(init[i] == entries[i] && init[j] == entries[j]);
            }
            assert forall|i: int, j: int| 0 <= i < j < all.len() implies (
            #[trigger] all[i]).power_control != (#[trigger] all[j]).power_control by {
                assert(all[i] == before[i]);
                if j < before.len() {
                    assert(all[j] == before[j]);
                } else {
                    let k = choose|k: int|
                        0 <= k < init.len() && is_display(#[trigger] init[k]) && gpu_of(
                            init[k],
                            cards,
                        ) == Some(before[i]);
                    assert(entries[k] == init[k]);
                    assert(gpu_of(last, cards) == Some(all[j]));
                }
            }
        }
    }
}

/// A class is a display class exactly if its text, without surrounding
/// whitespace, writes a hexadecimal number whose base class is 03, whatever
/// follows: `0x03` or `0X03` are its first four characters.
pub proof fn law_display_class_has_base_class_three(class: Seq<char>)
    ensures
        is_display_class(class) <==> {
            let t = trimmed(class);
            &&& t.len() >= 4
            &&& t[0] == '0'
            &&& t[1] == 'x' || t[1] == 'X'
            &&& t[2] == '0'
            &&& t[3] == '3'
        },
{
    reveal_strlit("0x03");
    let t = trimmed(class);
    let low = ascii_lowered(t);
    law_lowering_keeps_the_letter(t);
    if is_display_class(class) {
        assert(low.take(4) == "0x03"@);
        assert(low[0] == low.take(4)[0]);
        assert(low[1] == low.take(4)[1]);
        assert(low[2] == low.take(4)[2]);
        assert(low[3] == low.take(4)[3]);
        assert('x' as int - 'a' as int == 'X' as int - 'A' as int);
    }
    if t.len() >= 4 && t[0] == '0' && (t[1] == 'x' || t[1] == 'X') && t[2] == '0' && t[3] == '3' {
        assert(low[0] == '0' && low[2] == '0' && low[3] == '3');
        assert(low[1] == 'x');
        assert(low.take(4) == "0x03"@);
    }
}

/// A drm entry is a card of a PCI device exactly if its name begins with `card`
/// and has no dash anywhere, its link leads to that device, and it offers the
/// knob.
pub proof fn law_cards_are_told_by_name_link_and_knob(entry: DrmEntry, pci_name: Seq<char>)
    ensures
        is_card_of(entry, pci_name) <==> {
            let name = entry.name@;
            &&& name.len() >= 4
            &&& name[0] == 'c' && name[1] == 'a' && name[2] == 'r' && name[3] == 'd'
            &&& forall|i: int| 0 <= i < name.len() ==> #[trigger] name[i] != '-'
            &&& entry.device_name is Some
            &&& entry.device_name->0@ == pci_name
            &&& entry.has_dpm
        },
{
    reveal_strlit("card");
    let name = entry.name@;
    if "card"@.is_prefix_of(name) {
        assert(name.take(4) == "card"@);
        assert(name[0] == name.take(4)[0]);
        assert(name[1] == name.take(4)[1]);
        assert(name[2] == name.take(4)[2]);
        assert(name[3] == name.take(4)[3]);
    }
    if name.len() >= 4 && name[0] == 'c' && name[1] == 'a' && name[2] == 'r' && name[3] == 'd' {
        assert(name.take(4) == "card"@);
    }
    if !name.contains('-') {
        assert forall|i: int| 0 <= i < name.len() implies #[trigger] name[i] != '-' by {
            if name[i] == '-' {
                assert(name.contains('-'));
            }
        }
    }
}

/// The knob found by way of the drm cards lies below the `device` link of the
/// first card of the PCI device. None is found exactly if there is no such card,
/// the device's name is not known, or the cards cannot be listed.
pub proof fn law_first_card_gives_the_knob(pci_name: Seq<char>, cards: Seq<DrmEntry>)
    ensures
        drm_dpm(Some(pci_name), Some(cards)) matches Some(path) ==> exists|i: int|
            {
                &&& 0 <= i < cards.len()
                &&& is_card_of(#[trigger] cards[i], pci_name)
                &&& forall|j: int| 0 <= j < i ==> !is_card_of(#[trigger] cards[j], pci_name)
                &&& path == as_dir(cards[i].path@) + encode_utf8(
                    "device/power_dpm_force_performance_level"@,
                )
            },
        drm_dpm(Some(pci_name), Some(cards)) is None <==> forall|i: int|
            0 <= i < cards.len() ==> !is_card_of(#[trigger] cards[i], pci_name),
        drm_dpm(None, Some(cards)) is None,
        drm_dpm(Some(pci_name), None) is None,
        drm_dpm(None, None) is None,
    decreases cards.len(),
{
    if cards.len() > 0 {
        let first = cards[0];
        assert(first == cards.first());
        if is_card_of(first, pci_name) {
            lemma_card_knob(first.path@);
        } else {
            let rest = cards.drop_first();
            law_first_card_gives_the_knob(pci_name, rest);
            if let Some(path) = drm_dpm(Some(pci_name), Some(cards)) {
                let k = choose|i: int|
                    {
                        &&& 0 <= i < rest.len()
                        &&& is_card_of(#[trigger] rest[i], pci_name)
                        &&& forall|j: int| 0 <= j < i ==> !is_card_of(#[trigger] rest[j], pci_name)
                        &&& path == as_dir(rest[i].path@) + encode_utf8(
                            "device/power_dpm_force_performance_level"@,
                        )
                    };
                assert(cards[k + 1] == rest[k]);
                assert forall|j: int| 0 <= j < k + 1 implies !is_card_of(
                    #[trigger] cards[j],
                    pci_name,
                ) by {
                    if j > 0 {
                        assert(cards[j] == rest[j - 1]);
                    }
                }
            } else {
                assert forall|i: int| 0 <= i < cards.len() implies !is_card_of(
                    #[trigger] cards[i],
                    pci_name,
                ) by {
                    if i > 0 {
                        assert(cards[i] == rest[i - 1]);
                    }
                }
            }
        }
    }
}

proof fn lemma_card_knob(path: Seq<u8>)
    ensures
        dpm_below(joined(path, path_of("device"))) == as_dir(path) + encode_utf8(
            "device/power_dpm_force_performance_level"@,
        ),
{
    reveal_strlit("device");
    reveal_strlit("power_dpm_force_performance_level");
    reveal_strlit("device/power_dpm_force_performance_level");
    lemma_two_below(path, "device"@, "power_dpm_force_performance_level"@);
    assert("device"@ + seq!['/'] + "power_dpm_force_performance_level"@
        =~= "device/power_dpm_force_performance_level"@);
}

proof fn lemma_entry_knobs(path: Seq<u8>)
    ensures
        joined(joined(path, path_of("power")), path_of("control")) == as_dir(path) + encode_utf8(
            "power/control"@,
        ),
        dpm_below(path) == as_dir(path) + encode_utf8("power_dpm_force_performance_level"@),
{
    reveal_strlit("power");
    reveal_strlit("control");
    reveal_strlit("power/control");
    reveal_strlit("power_dpm_force_performance_level");
    lemma_two_below(path, "power"@, "control"@);
    assert("power"@ + seq!['/'] + "control"@ =~= "power/control"@);
    lemma_below(path, "power_dpm_force_performance_level"@);
}

/// Each further entry adds one device at the end of those found if its class can
/// be read and has the base class 03, and nothing otherwise. The device's
/// `power/control` lies below the entry, and so does its other knob where the
/// entry has it. Else that knob is the one that the drm cards give for the name
/// of the entry.
pub proof fn law_discovery_takes_each_entry(
    entries: Seq<PciEntry>,
    entry: PciEntry,
    cards: Option<Seq<DrmEntry>>,
)
    ensures
        gpus_of(Seq::empty(), cards).len() == 0,
        ({
            let before = gpus_of(entries, cards);
            let after = gpus_of(entries.push(entry), cards);
            let t = trimmed(entry.class->0@);
            if entry.class is Some && t.len() >= 4 && t[0] == '0' && (t[1] == 'x' || t[1] == 'X')
                && t[2] == '0' && t[3] == '3' {
                &&& after.len() == before.len() + 1
                &&& before.is_prefix_of(after)
                &&& after.last().power_control == as_dir(entry.path@) + encode_utf8(
                    "power/control"@,
                )
                &&& entry.has_dpm ==> after.last().power_dpm_force_performance_level == Some(
                    as_dir(entry.path@) + encode_utf8("power_dpm_force_performance_level"@),
                )
                &&& !entry.has_dpm && entry.name is Some
                    ==> after.last().power_dpm_force_performance_level == drm_dpm(
                    Some(entry.name->0@),
                    cards,
                )
                &&& !entry.has_dpm && entry.name is None
                    ==> after.last().power_dpm_force_performance_level is None
            } else {
                after == before
            }
        }),
{
    let before = gpus_of(entries, cards);
    let after = gpus_of(entries.push(entry), cards);
    assert(entries.push(entry).drop_last() == entries);
    lemma_entry_knobs(entry.path@);
    if entry.class is Some {
        law_display_class_has_base_class_three(entry.class->0@);
    }
    if after.len() > before.len() {
        assert(after.take(before.len() as int) == before);
    }
}

/// Discovery finds exactly the listed entries whose class can be read and has the
/// base class 03: each of them has a device whose `power/control` lies below it,
/// and each device is that of such an entry.
pub proof fn law_discovery_finds_display_controllers(
    entries: Vec<PciEntry>,
    cards: Option<&Vec<DrmEntry>>,
    found: Vec<GpuDevice>,
)
    requires
        call_ensures(discover_gpu_pci_devices, (Some(&entries), cards), found),
    ensures
        forall|i: int|
            {
                let entry = #[trigger] entries@[i];
                let t = trimmed(entry.class->0@);
                0 <= i < entries@.len() && entry.class is Some && t.len() >= 4 && t[0] == '0' && (
                t[1] == 'x' || t[1] == 'X') && t[2] == '0' && t[3] == '3'
            } ==> exists|j: int|
                0 <= j < found@.len() && (#[trigger] found@[j]).power_control.bytes@ == as_dir(
                    entries@[i].path.bytes@,
                ) + encode_utf8("power/control"@),
        forall|j: int|
            0 <= j < found@.len() ==> exists|i: int|
                {
                    let entry = #[trigger] entries@[i];
                    let t = trimmed(entry.class->0@);
                    &&& 0 <= i < entries@.len()
                    &&& entry.class is Some
                    &&& t.len() >= 4
                    &&& t[0] == '0' && (t[1] == 'x' || t[1] == 'X') && t[2] == '0' && t[3] == '3'
                    &&& (#[trigger] found@[j]).power_control.bytes@ == as_dir(entry.path.bytes@)
                        + encode_utf8("power/control"@)
                    &&& entry.has_dpm ==> found@[j].power_dpm_force_performance_level is Some
                        && found@[j].power_dpm_force_performance_level->0.bytes@ == as_dir(
                        entry.path.bytes@,
                    ) + encode_utf8("power_dpm_force_performance_level"@)
                },
{
    let list = entries@;
    let gpus = gpus_of(list, opt_seq(cards));
    law_display_controllers_are_found(list, opt_seq(cards));
    law_views_hold_every_device(found@);
    assert(device_views(found@) == gpus);
    assert forall|i: int|
        {
            let entry = #[trigger] list[i];
            let t = trimmed(entry.class->0@);
            0 <= i < list.len() && entry.class is Some && t.len() >= 4 && t[0] == '0' && (t[1]
                == 'x' || t[1] == 'X') && t[2] == '0' && t[3] == '3'
        } implies exists|j: int|
        0 <= j < found@.len() && (#[trigger] found@[j]).power_control.bytes@ == as_dir(
            list[i].path.bytes@,
        ) + encode_utf8("power/control"@) by {
        law_display_class_has_base_class_three(list[i].class->0@);
        lemma_entry_knobs(list[i].path@);
        let gpu = gpu_of(list[i], opt_seq(cards))->0;
        let j = choose|j: int| 0 <= j < gpus.len() && gpus[j] == gpu;
        assert(device_views(found@)[j] == gpu);
        assert(found@[j].power_control.bytes@ == gpu.power_control);
    }
    assert forall|j: int| 0 <= j < found@.len() implies exists|i: int|
        {
            let entry = #[trigger] list[i];
            let t = trimmed(entry.class->0@);
            &&& 0 <= i < list.len()
            &&& entry.class is Some
            &&& t.len() >= 4
            &&& t[0] == '0' && (t[1] == 'x' || t[1] == 'X') && t[2] == '0' && t[3] == '3'
            &&& (#[trigger] found@[j]).power_control.bytes@ == as_dir(entry.path.bytes@)
                + encode_utf8("power/control"@)
            &&& entry.has_dpm ==> found@[j].power_dpm_force_performance_level is Some
                && found@[j].power_dpm_force_performance_level->0.bytes@ == as_dir(
                entry.path.bytes@,
            ) + encode_utf8("power_dpm_force_performance_level"@)
        } by {
        let view = device_views(found@)[j];
        assert(view == gpus[j]);
        let i = choose|i: int|
            0 <= i < list.len() && is_display(#[trigger] list[i]) && gpu_of(list[i], opt_seq(cards))
                == Some(gpus[j]);
        law_display_class_has_base_class_three(list[i].class->0@);
        lemma_entry_knobs(list[i].path@);
        assert(found@[j].power_control.bytes@ == view.power_control);
    }
}

/// `display_class` tells display controllers by the base class 03.
pub proof fn law_display_class_goes_by_base_class(class: &str, is_display: bool)
    requires
        call_ensures(display_class, (class,), is_display),
    ensures
        is_display <==> {
            let t = trimmed(class@);
            &&& t.len() >= 4
            &&& t[0] == '0'
            &&& t[1] == 'x' || t[1] == 'X'
            &&& t[2] == '0'
            &&& t[3] == '3'
        },
{
    law_display_class_has_base_class_three(class@);
}

/// A PCI directory that cannot be listed has no devices.
pub proof fn law_nothing_is_found_unlisted(cards: Option<&Vec<DrmEntry>>, found: Vec<GpuDevice>)
    requires
        call_ensures(discover_gpu_pci_devices, (None, cards), found),
    ensures
        found@.len() == 0,
{
    assert(device_views(found@).len() == 0);
}

/// Looking for the knob among no cards, or for a device without a name, finds
/// none. Else it finds the knob of a card of that device, if there is one.
pub proof fn law_search_goes_by_name_and_cards(
    name: Option<&str>,
    cards: Option<&Vec<DrmEntry>>,
    found: Option<FilePath>,
)
    requires
        call_ensures(find_amdgpu_dpm_via_drm, (name, cards), found),
    ensures
        name is None || cards is None ==> found is None,
        name is Some && cards is Some ==> {
            &&& found is None <==> forall|i: int|
                0 <= i < cards->0@.len() ==> !is_card_of(#[trigger] cards->0@[i], name->0@)
            &&& found is Some ==> exists|i: int|
                {
                    &&& 0 <= i < cards->0@.len()
                    &&& is_card_of(#[trigger] cards->0@[i], name->0@)
                    &&& found->0.bytes@ == as_dir(cards->0@[i].path@) + encode_utf8(
                        "device/power_dpm_force_performance_level"@,
                    )
                }
        },
{
    if name is Some && cards is Some {
        law_first_card_gives_the_knob(name->0@, cards->0@);
    }
}

/// The view of a list of devices holds the paths of every one of them.
pub proof fn law_views_hold_every_device(devices: Seq<GpuDevice>)
    ensures
        device_views(devices).len() == devices.len(),
        forall|i: int|
            0 <= i < devices.len() ==> {
                let view = #[trigger] device_views(devices)[i];
                let dpm = devices[i].power_dpm_force_performance_level;
                &&& view.power_control == devices[i].power_control.bytes@
                &&& view.power_dpm_force_performance_level is Some == dpm is Some
                &&& dpm is Some ==> view.power_dpm_force_performance_level->0 == dpm->0.bytes@
            },
{
}

// ---------------- controller ----------------

/// One snapshot entry: a knob and the exact value that it held before it was
/// overwritten.
#[derive(Debug)]
pub struct SnapEntry {
    path: FilePath,
    original: String,
}

/// A `SnapEntry` as plain sequences.
pub struct EntryView {
    pub path: Seq<u8>,
    pub original: Seq<char>,
}

impl View for SnapEntry {
    type V = EntryView;

    closed spec fn view(&self) -> EntryView {
        EntryView { path: self.path@, original: self.original@ }
    }
}

/// Turns hardware knobs down and back up.
#[derive(Debug)]
pub struct LowPowerController {
    /// The knobs that were read and overwritten. Only these are restored.
    snapshot: Vec<SnapEntry>,
    active: bool,
}

/// What a controller remembers.
pub struct ControllerView {
    pub snapshot: Seq<EntryView>,
    pub active: bool,
}

impl ControllerView {
    /// Outside low-power mode there is nothing to restore.
    pub open spec fn wf(self) -> bool {
        !self.active ==> self.snapshot.len() == 0
    }
}

impl View for LowPowerController {
    type V = ControllerView;

    closed spec fn view(&self) -> ControllerView {
        ControllerView {
            snapshot: self.snapshot@.map_values(|entry: SnapEntry| entry@),
            active: self.active,
        }
    }
}

/// A controller outside low-power mode.
pub open spec fn inactive() -> ControllerView {
    ControllerView { snapshot: Seq::empty(), active: false }
}

/// The value that low-power mode writes to every knob.
pub open spec fn target() -> Seq<char> {
    "auto"@
}

/// The knobs of the devices, in the order in which they are turned.
pub open spec fn knobs_of(devices: Seq<DeviceView>) -> Seq<Seq<u8>>
    decreases devices.len(),
{
    if devices.len() == 0 {
        Seq::empty()
    } else {
        let device = devices.last();
        let init = knobs_of(devices.drop_last()).push(device.power_control);
        match device.power_dpm_force_performance_level {
            Some(dpm) => init.push(dpm),
            None => init,
        }
    }
}

/// The knobs that are turned are the `power/control` of every device and, where
/// it has one, its `power_dpm_force_performance_level`, and no others. They are
/// turned device by device, `power/control` first.
pub proof fn law_every_device_has_its_knobs_turned(devices: Seq<DeviceView>)
    ensures
        forall|i: int|
            0 <= i < devices.len() ==> knobs_of(devices).contains(
                (#[trigger] devices[i]).power_control,
            ),
        forall|i: int|
            0 <= i < devices.len() && (
            #[trigger] devices[i]).power_dpm_force_performance_level is Some ==> knobs_of(
                devices,
            ).contains(devices[i].power_dpm_force_performance_level->0),
        forall|path: Seq<u8>| #[trigger]
            knobs_of(devices).contains(path) ==> exists|i: int|
                0 <= i < devices.len() && (path == (#[trigger] devices[i]).power_control || Some(
                    path,
                ) == devices[i].power_dpm_force_performance_level),
    decreases devices.len(),
{
    if devices.len() > 0 {
        let init = devices.drop_last();
        let last = devices[devices.len() - 1];
        assert(last == devices.last());
        law_every_device_has_its_knobs_turned(init);
        let before = knobs_of(init);
        let all = knobs_of(devices);
        assert(all[before.len() as int] == last.power_control);
        assert(forall|k: int| 0 <= k < before.len() ==> all[k] == #[trigger] before[k]);
        assert forall|path: Seq<u8>| before.contains(path) implies #[trigger] all.contains(
            path,
        ) by {
            let k = choose|k: int| 0 <= k < before.len() && before[k] == path;
            assert(all[k] == path);
        }
        if let Some(dpm) = last.power_dpm_force_performance_level {
            assert(all[before.len() as int + 1] == dpm);
        }
        assert forall|i: int| 0 <= i < devices.len() implies all.contains(
            (#[trigger] devices[i]).power_control,
        ) by {
            if i < init.len() {
                assert(devices[i] == init[i]);
                assert(before.contains(init[i].power_control));
            }
        }
        assert forall|i: int|
            0 <= i < devices.len() && (
            #[trigger] devices[i]).power_dpm_force_performance_level is Some implies all.contains(
            devices[i].power_dpm_force_performance_level->0,
        ) by {
            if i < init.len() {
                assert(devices[i] == init[i]);
                assert(before.contains(init[i].power_dpm_force_performance_level->0));
            }
        }
        assert forall|path: Seq<u8>| #[trigger] all.contains(path) implies exists|i: int|
            0 <= i < devices.len() && (path == (#[trigger] devices[i]).power_control || Some(path)
                == devices[i].power_dpm_force_performance_level) by {
            let k = choose|k: int| 0 <= k < all.len() && all[k] == path;
            if k < before.len() {
                assert(before[k] == path);
                assert(before.contains(path));
                let i = choose|i: int|
                    0 <= i < init.len() && (path == (#[trigger] init[i]).power_control || Some(path)
                        == init[i].power_dpm_force_performance_level);
                assert(devices[i] == init[i]);
            } else {
                assert(devices[devices.len() - 1] == last);
            }
        }
    }
}

/// The knobs of a further device are turned after those of the others, its
/// `power/control` first.
pub proof fn law_knobs_are_turned_in_order(devices: Seq<DeviceView>, device: DeviceView)
    ensures
        knobs_of(Seq::empty()).len() == 0,
        ({
            let before = knobs_of(devices);
            let after = knobs_of(devices.push(device));
            let n = before.len() as int;
            &&& before.is_prefix_of(after)
            &&& after[n] == device.power_control
            &&& device.power_dpm_force_performance_level is None ==> after.len() == n + 1
            &&& device.power_dpm_force_performance_level is Some ==> after.len() == n + 2
                && after[n + 1] == device.power_dpm_force_performance_level->0
        }),
{
    assert(devices.push(device).drop_last() == devices);
    let before = knobs_of(devices);
    let after = knobs_of(devices.push(device));
    assert(after.take(before.len() as int) == before);
}

/// Where entering low-power mode stands.
pub enum EnterView {
    /// Low-power mode is on. `changed` knobs were turned by this entry.
    Finished { controller: ControllerView, changed: nat },
    /// The devices are to be discovered.
    Discover,
    /// The first of `knobs` is to be read.
    Read { knobs: Seq<Seq<u8>>, taken: Seq<EntryView> },
    /// The first of `knobs`, which held `original`, is to be overwritten.
    Write { knobs: Seq<Seq<u8>>, taken: Seq<EntryView>, original: Seq<char> },
}

/// The first step of entering. A controller that is active already changes
/// nothing.
pub open spec fn enter_begin(controller: ControllerView) -> EnterView {
    if controller.active {
        EnterView::Finished { controller, changed: 0 }
    } else {
        EnterView::Discover
    }
}

/// The step that is due with `knobs` left to turn.
pub open spec fn enter_next(knobs: Seq<Seq<u8>>, taken: Seq<EntryView>) -> EnterView {
    if knobs.len() == 0 {
        EnterView::Finished {
            controller: ControllerView { snapshot: taken, active: true },
            changed: taken.len(),
        }
    } else {
        EnterView::Read { knobs, taken }
    }
}

/// The step after reading the first knob. One that cannot be read, or holds
/// the target value already, is left alone.
pub open spec fn enter_value(
    knobs: Seq<Seq<u8>>,
    taken: Seq<EntryView>,
    value: Option<Seq<char>>,
) -> EnterView {
    match value {
        Some(original) if trimmed(original) != target() => EnterView::Write {
            knobs,
            taken,
            original,
        },
        _ => enter_next(knobs.drop_first(), taken),
    }
}

/// The step after writing the first knob. It is recorded only if the write
/// succeeded.
pub open spec fn enter_written(
    knobs: Seq<Seq<u8>>,
    taken: Seq<EntryView>,
    original: Seq<char>,
    ok: bool,
) -> EnterView {
    let kept = if ok {
        taken.push(EntryView { path: knobs.first(), original })
    } else {
        taken
    };
    enter_next(knobs.drop_first(), kept)
}

/// The step of entering low-power mode that is due.
#[derive(Debug)]
pub enum EnterStep {
    /// Done: the controller, and the number of knobs changed.
    Finished(LowPowerController, usize),
    /// Discover the devices and hand them to `EnterDiscover::devices`.
    Discover(EnterDiscover),
    /// Read a knob and hand its value to `EnterRead::value`.
    Read(EnterRead),
    /// Write a knob and hand the success to `EnterWrite::written`.
    Write(EnterWrite),
}

impl View for EnterStep {
    type V = EnterView;

    open spec fn view(&self) -> EnterView {
        match self {
            EnterStep::Finished(controller, changed) => EnterView::Finished {
                controller: controller@,
                changed: *changed as nat,
            },
            EnterStep::Discover(_) => EnterView::Discover,
            EnterStep::Read(step) => EnterView::Read { knobs: step.knobs(), taken: step.taken() },
            EnterStep::Write(step) => EnterView::Write {
                knobs: step.knobs(),
                taken: step.taken(),
                original: step.original(),
            },
        }
    }
}

/// Entering waits for the devices.
#[derive(Debug)]
pub struct EnterDiscover {}

/// Knobs still to be turned, from `next` on, and the entries recorded so far.
#[derive(Debug)]
struct EnterRun {
    knobs: Vec<FilePath>,
    next: usize,
    taken: Vec<SnapEntry>,
}

impl EnterRun {
    spec fn left(&self) -> Seq<Seq<u8>> {
        paths(self.knobs@).skip(self.next as int)
    }

    spec fn recorded(&self) -> Seq<EntryView> {
        self.taken@.map_values(|entry: SnapEntry| entry@)
    }

    spec fn pending(&self) -> bool {
        self.next < self.knobs.len()
    }

    fn step(self) -> (r: EnterStep)
        requires
            self.next <= self.knobs.len(),
        ensures
            r@ == enter_next(self.left(), self.recorded()),
    {
        if self.next < self.knobs.len() {
            EnterStep::Read(EnterRead { run: self })
        } else {
            let changed = self.taken.len();
            EnterStep::Finished(LowPowerController { snapshot: self.taken, active: true }, changed)
        }
    }

    fn skip(self) -> (r: EnterStep)
        requires
            self.pending(),
        ensures
            r@ == enter_next(self.left().drop_first(), self.recorded()),
    {
        let run = EnterRun { knobs: self.knobs, next: self.next + 1, taken: self.taken };
        assert(run.left() == self.left().drop_first());
        run.step()
    }
}

/// The paths of a list.
pub open spec fn paths(list: Seq<FilePath>) -> Seq<Seq<u8>> {
    list.map_values(|path: FilePath| path@)
}

/// Entering waits for the value of a knob.
#[derive(Debug)]
pub struct EnterRead {
    run: EnterRun,
}

/// Entering waits for the outcome of a write.
#[derive(Debug)]
pub struct EnterWrite {
    run: EnterRun,
    original: String,
}

impl EnterDiscover {
    /// Goes on with the discovered devices.
    pub fn devices(self, devices: Vec<GpuDevice>) -> (r: EnterStep)
        ensures
            r@ == enter_next(knobs_of(device_views(devices@)), Seq::empty()),
    {
        let mut knobs: Vec<FilePath> = Vec::new();
        let mut i: usize = 0;
        assert(paths(knobs@) == Seq::<Seq<u8>>::empty());
        while i < devices.len()
            invariant
                i <= devices.len(),
                paths(knobs@) == knobs_of(device_views(devices@).take(i as int)),
            decreases devices.len() - i,
        {
            let device = &devices[i];
            let ghost before = paths(knobs@);
            assert(device_views(devices@).take(i + 1).drop_last() == device_views(devices@).take(
                i as int,
            ));
            knobs.push(device.power_control.clone());
            assert(paths(knobs@) == before.push(device@.power_control));
            if let Some(dpm) = &device.power_dpm_force_performance_level {
                let ghost middle = paths(knobs@);
                knobs.push(dpm.clone());
                assert(paths(knobs@) == middle.push(dpm@));
            }
            i = i + 1;
        }
        assert(device_views(devices@).take(devices@.len() as int) == device_views(devices@));
        let run = EnterRun { knobs, next: 0, taken: Vec::new() };
        assert(run.left() == paths(knobs@));
        assert(run.recorded() == Seq::<EntryView>::empty());
        run.step()
    }
}

impl EnterRead {
    #[verifier::type_invariant]
    spec fn inv(self) -> bool {
        self.run.pending()
    }

    /// The knobs still to be turned.
    pub closed spec fn knobs(&self) -> Seq<Seq<u8>> {
        self.run.left()
    }

    /// The entries recorded so far.
    pub closed spec fn taken(&self) -> Seq<EntryView> {
        self.run.recorded()
    }

    /// The knob to read.
    pub fn path(&self) -> (r: &FilePath)
        ensures
            self.knobs().len() > 0,
            r@ == self.knobs()[0],
    {
        proof {
            use_type_invariant(self);
        }
        &self.run.knobs[self.run.next]
    }

    /// Goes on with the value of the knob. `None` stands for a knob that
    /// cannot be read.
    pub fn value(self, value: Option<String>) -> (r: EnterStep)
        ensures
            r@ == enter_value(self.knobs(), self.taken(), opt_text(value)),
    {
        proof {
            use_type_invariant(&self);
        }
        match value {
            Some(original) => if same_text(trim(original.as_str()), "auto") {
                self.run.skip()
            } else {
                EnterStep::Write(EnterWrite { run: self.run, original })
            },
            None => self.run.skip(),
        }
    }
}

impl EnterWrite {
    #[verifier::type_invariant]
    spec fn inv(self) -> bool {
        self.run.pending()
    }

    /// The knobs still to be turned.
    pub closed spec fn knobs(&self) -> Seq<Seq<u8>> {
        self.run.left()
    }

    /// The entries recorded so far.
    pub closed spec fn taken(&self) -> Seq<EntryView> {
        self.run.recorded()
    }

    /// What the knob held.
    pub closed spec fn original(&self) -> Seq<char> {
        self.original@
    }

    /// The knob to write.
    pub fn path(&self) -> (r: &FilePath)
        ensures
            self.knobs().len() > 0,
            r@ == self.knobs()[0],
    {
        proof {
            use_type_invariant(self);
        }
        &self.run.knobs[self.run.next]
    }

    /// The value to write to it.
    pub fn new_value(&self) -> (r: &'static str)
        ensures
            r@ == target(),
    {
        "auto"
    }

    /// Goes on after the write, which succeeded or not.
    pub fn written(self, ok: bool) -> (r: EnterStep)
        ensures
            r@ == enter_written(self.knobs(), self.taken(), self.original(), ok),
    {
        proof {
            use_type_invariant(&self);
        }
        let ghost before = self.run.recorded();
        let path = self.run.knobs[self.run.next].clone();
        let EnterWrite { run, original } = self;
        let EnterRun { knobs, next, taken } = run;
        let mut taken = taken;
        if ok {
            let entry = SnapEntry { path, original };
            taken.push(entry);
            assert(taken@.map_values(|entry: SnapEntry| entry@) == before.push(entry@));
        }
        EnterRun { knobs, next, taken }.skip()
    }
}

/// Where leaving low-power mode stands.
pub enum ExitView {
    /// Low-power mode is off. `restored` knobs were written back.
    Finished { controller: ControllerView, restored: nat },
    /// The first of `entries` is to be written back.
    Restore { entries: Seq<EntryView>, restored: nat },
}

/// The step that is due with `entries` left to restore.
pub open spec fn exit_next(entries: Seq<EntryView>, restored: nat) -> ExitView {
    if entries.len() == 0 {
        ExitView::Finished { controller: inactive(), restored }
    } else {
        ExitView::Restore { entries, restored }
    }
}

/// The first step of leaving. A controller that is not active restores nothing.
pub open spec fn exit_begin(controller: ControllerView) -> ExitView {
    if controller.active {
        exit_next(controller.snapshot, 0)
    } else {
        ExitView::Finished { controller, restored: 0 }
    }
}

/// The step after writing the first entry back. A write that fails is not
/// counted, and the rest is restored all the same.
pub open spec fn exit_written(entries: Seq<EntryView>, restored: nat, ok: bool) -> ExitView {
    exit_next(
        entries.drop_first(),
        if ok {
            restored + 1
        } else {
            restored
        },
    )
}

/// The step of leaving low-power mode that is due.
#[derive(Debug)]
pub enum ExitStep {
    /// Done: the controller, and the number of knobs restored.
    Finished(LowPowerController, usize),
    /// Write a knob back and hand the success to `ExitRestore::written`.
    Restore(ExitRestore),
}

impl View for ExitStep {
    type V = ExitView;

    open spec fn view(&self) -> ExitView {
        match self {
            ExitStep::Finished(controller, restored) => ExitView::Finished {
                controller: controller@,
                restored: *restored as nat,
            },
            ExitStep::Restore(step) => ExitView::Restore {
                entries: step.entries(),
                restored: step.count(),
            },
        }
    }
}

/// Leaving waits for the outcome of a write.
#[derive(Debug)]
pub struct ExitRestore {
    snapshot: Vec<SnapEntry>,
    next: usize,
    restored: usize,
}

fn exit_step(snapshot: Vec<SnapEntry>, next: usize, restored: usize) -> (r: ExitStep)
    requires
        restored <= next <= snapshot.len(),
    ensures
        r@ == exit_next(
            snapshot@.map_values(|entry: SnapEntry| entry@).skip(next as int),
            restored as nat,
        ),
{
    if next < snapshot.len() {
        ExitStep::Restore(ExitRestore { snapshot, next, restored })
    } else {
        ExitStep::Finished(LowPowerController::new(), restored)
    }
}

impl ExitRestore {
    #[verifier::type_invariant]
    spec fn inv(self) -> bool {
        self.restored <= self.next < self.snapshot.len()
    }

    /// The entries still to be restored.
    pub closed spec fn entries(&self) -> Seq<EntryView> {
        self.snapshot@.map_values(|entry: SnapEntry| entry@).skip(self.next as int)
    }

    /// How many knobs were restored so far.
    pub closed spec fn count(&self) -> nat {
        self.restored as nat
    }

    /// The knob to write back.
    pub fn path(&self) -> (r: &FilePath)
        ensures
            self.entries().len() > 0,
            r@ == self.entries()[0].path,
    {
        proof {
            use_type_invariant(self);
        }
        &self.snapshot[self.next].path
    }

    /// The value to write to it.
    pub fn original(&self) -> (r: &str)
        ensures
            self.entries().len() > 0,
            r@ == self.entries()[0].original,
    {
        proof {
            use_type_invariant(self);
        }
        self.snapshot[self.next].original.as_str()
    }

    /// Goes on after the write, which succeeded or not.
    pub fn written(self, ok: bool) -> (r: ExitStep)
        ensures
            r@ == exit_written(self.entries(), self.count(), ok),
    {
        proof {
            use_type_invariant(&self);
            let all = self.snapshot@.map_values(|entry: SnapEntry| entry@);
            assert(all.skip(self.next as int).drop_first() == all.skip(self.next + 1));
        }
        let restored = if ok {
            self.restored + 1
        } else {
            self.restored
        };
        let next = self.next + 1;
        let ExitRestore { snapshot, .. } = self;
        exit_step(snapshot, next, restored)
    }
}

impl LowPowerController {
    #[verifier::type_invariant]
    spec fn inv(self) -> bool {
        !self.active ==> self.snapshot@.len() == 0
    }

    /// A controller outside low-power mode.
    pub fn new() -> (r: LowPowerController)
        ensures
            r@ == inactive(),
    {
        let r = LowPowerController { snapshot: Vec::new(), active: false };
        assert(r@.snapshot == Seq::<EntryView>::empty());
        r
    }

    /// Whether low-power mode is on. If it is off, nothing is left to restore.
    pub fn is_active(&self) -> (r: bool)
        ensures
            r == self@.active,
            self@.wf(),
    {
        proof {
            use_type_invariant(self);
        }
        self.active
    }

    /// Starts to enter low-power mode.
    pub fn enter(self) -> (r: EnterStep)
        ensures
            r@ == enter_begin(self@),
    {
        if self.active {
            EnterStep::Finished(self, 0)
        } else {
            EnterStep::Discover(EnterDiscover {  })
        }
    }

    /// Starts to leave low-power mode.
    pub fn exit(self) -> (r: ExitStep)
        ensures
            r@ == exit_begin(self@),
    {
        if self.active {
            assert(self@.snapshot.skip(0) == self@.snapshot);
            exit_step(self.snapshot, 0, 0)
        } else {
            ExitStep::Finished(self, 0)
        }
    }
}

impl Default for LowPowerController {
    fn default() -> (r: LowPowerController)
        ensures
            r@ == inactive(),
    {
        LowPowerController::new()
    }
}

/// With the devices known, entering goes on to read the first knob, and has before
/// it the knobs of every device: its `power/control` and, where it has one, its
/// `power_dpm_force_performance_level`. Without devices it is done, with low-power
/// mode on and nothing changed.
pub proof fn law_entering_has_every_knob_before_it(
    step: EnterDiscover,
    devices: Vec<GpuDevice>,
    next: EnterStep,
)
    requires
        call_ensures(EnterDiscover::devices, (step, devices), next),
    ensures
        devices@.len() == 0 ==> next is Finished && next->Finished_0@.active
            && next->Finished_0@.snapshot.len() == 0 && next->Finished_1 == 0,
        devices@.len() > 0 ==> {
            &&& next is Read
            &&& next->Read_0.taken().len() == 0
            &&& next->Read_0.knobs()[0] == devices@[0].power_control.bytes@
            &&& forall|i: int|
                0 <= i < devices@.len() ==> {
                    let dpm = (#[trigger] devices@[i]).power_dpm_force_performance_level;
                    &&& next->Read_0.knobs().contains(devices@[i].power_control.bytes@)
                    &&& dpm is Some ==> next->Read_0.knobs().contains(dpm->0.bytes@)
                }
            &&& forall|path: Seq<u8>| #[trigger]
                next->Read_0.knobs().contains(path) ==> exists|i: int|
                    {
                        let dpm = (#[trigger] devices@[i]).power_dpm_force_performance_level;
                        &&& 0 <= i < devices@.len()
                        &&& path == devices@[i].power_control.bytes@ || (dpm is Some && path
                            == dpm->0.bytes@)
                    }
        },
{
    let views = device_views(devices@);
    let knobs = knobs_of(views);
    law_views_hold_every_device(devices@);
    law_every_device_has_its_knobs_turned(views);
    if devices@.len() > 0 {
        lemma_first_knob(views);
        assert forall|i: int| 0 <= i < devices@.len() implies {
            let dpm = (#[trigger] devices@[i]).power_dpm_force_performance_level;
            &&& knobs.contains(devices@[i].power_control.bytes@)
            &&& dpm is Some ==> knobs.contains(dpm->0.bytes@)
        } by {
            let view = views[i];
            assert(knobs.contains(view.power_control));
        }
        assert forall|path: Seq<u8>| #[trigger] knobs.contains(path) implies exists|i: int|
            {
                let dpm = (#[trigger] devices@[i]).power_dpm_force_performance_level;
                &&& 0 <= i < devices@.len()
                &&& path == devices@[i].power_control.bytes@ || (dpm is Some && path
                    == dpm->0.bytes@)
            } by {
            let i = choose|i: int|
                0 <= i < views.len() && (path == (#[trigger] views[i]).power_control || Some(path)
                    == views[i].power_dpm_force_performance_level);
            let device = devices@[i];
            assert(views[i] == device@);
        }
    }
}

proof fn lemma_first_knob(devices: Seq<DeviceView>)
    requires
        devices.len() > 0,
    ensures
        knobs_of(devices).len() > 0,
        knobs_of(devices)[0] == devices[0].power_control,
    decreases devices.len(),
{
    let init = devices.drop_last();
    if init.len() > 0 {
        lemma_first_knob(init);
        assert(init[0] == devices[0]);
    } else {
        assert(knobs_of(init).len() == 0);
        assert(devices.last() == devices[0]);
    }
}

/// A knob is overwritten exactly if it could be read and does not hold `auto`
/// already, and what it held is kept as it was. A knob that is not overwritten is
/// passed over, and the knobs behind it are left to turn.
pub proof fn law_read_knob_is_written_or_passed_over(
    step: EnterRead,
    value: Option<String>,
    next: EnterStep,
)
    requires
        call_ensures(EnterRead::value, (step, value), next),
    ensures
        next is Write <==> value is Some && trimmed(value->0@) != seq!['a', 'u', 't', 'o'],
        next is Write ==> {
            &&& next->Write_0.original() == value->0@
            &&& next->Write_0.knobs() == step.knobs()
            &&& next->Write_0.taken() == step.taken()
        },
        !(next is Write) && step.knobs().len() > 1 ==> {
            &&& next is Read
            &&& next->Read_0.knobs() == step.knobs().drop_first()
            &&& next->Read_0.taken() == step.taken()
        },
        !(next is Write) && step.knobs().len() == 1 ==> {
            &&& next is Finished
            &&& next->Finished_0@.active
            &&& next->Finished_0@.snapshot == step.taken()
            &&& next->Finished_1 == step.taken().len()
        },
{
    reveal_strlit("auto");
    assert(target() =~= seq!['a', 'u', 't', 'o']);
}

/// A knob is recorded, with what it held, exactly if its write succeeded. Either
/// way the knobs behind it are left to turn.
pub proof fn law_written_knob_is_recorded(step: EnterWrite, ok: bool, next: EnterStep)
    requires
        step.knobs().len() > 0,
        call_ensures(EnterWrite::written, (step, ok), next),
    ensures
        ({
            let kept = if ok {
                step.taken().push(EntryView { path: step.knobs()[0], original: step.original() })
            } else {
                step.taken()
            };
            if step.knobs().len() > 1 {
                &&& next is Read
                &&& next->Read_0.knobs() == step.knobs().drop_first()
                &&& next->Read_0.taken() == kept
            } else {
                &&& next is Finished
                &&& next->Finished_0@.active
                &&& next->Finished_0@.snapshot == kept
                &&& next->Finished_1 == kept.len()
            }
        }),
{
}

/// Leaving goes through every recorded knob whether or not a write succeeded, and
/// counts those whose write did. At the end low-power mode is off and nothing is
/// recorded.
pub proof fn law_restoring_goes_on(step: ExitRestore, ok: bool, next: ExitStep)
    requires
        step.entries().len() > 0,
        call_ensures(ExitRestore::written, (step, ok), next),
    ensures
        ({
            let count = step.count() + if ok {
                1int
            } else {
                0
            };
            if step.entries().len() > 1 {
                &&& next is Restore
                &&& next->Restore_0.entries() == step.entries().drop_first()
                &&& next->Restore_0.count() == count
            } else {
                &&& next is Finished
                &&& !next->Finished_0@.active
                &&& next->Finished_0@.snapshot.len() == 0
                &&& next->Finished_1 == count
            }
        }),
{
}

/// Entering begins with discovery unless low-power mode is on already, and leaving
/// with the first recorded knob. Entering while it is on and leaving while it is
/// off keep the controller as it is.
pub proof fn law_first_steps(
    controller: LowPowerController,
    entering: EnterStep,
    leaving: ExitStep,
)
    requires
        call_ensures(LowPowerController::enter, (controller,), entering),
        call_ensures(LowPowerController::exit, (controller,), leaving),
    ensures
        !controller@.active ==> entering is Discover,
        controller@.active ==> entering is Finished && entering->Finished_0@ == controller@
            && entering->Finished_1 == 0,
        !controller@.active ==> leaving is Finished && leaving->Finished_0@ == controller@
            && leaving->Finished_1 == 0,
        controller@.active && controller@.snapshot.len() > 0 ==> leaving is Restore
            && leaving->Restore_0.entries() == controller@.snapshot && leaving->Restore_0.count()
            == 0,
        controller@.active && controller@.snapshot.len() == 0 ==> leaving is Finished
            && !leaving->Finished_0@.active && leaving->Finished_1 == 0,
{
}

} // verus!
