//! Choosing the temperature sensors shown on the LCD among the hwmon devices
//! of the system.

use vstd::prelude::*;
use crate::text::{chars_equal, chars_of, trim_seq, trimmed};

verus! {

/// What the choice needs to know of one hwmon device: the text of its
/// `name` file (None when it cannot be read) and whether it has a
/// `temp1_input` file.
pub struct HwmonEntry {
    pub name: Option<String>,
    pub has_temp_input: bool,
}

/// Entry `i` is a usable sensor whose trimmed name is `name`.
pub open spec fn sensor_named(entries: Seq<HwmonEntry>, i: int, name: Seq<char>) -> bool {
    0 <= i < entries.len() && entries[i].has_temp_input && match entries[i].name {
        Some(n) => trim_seq(n@) == name,
        None => false,
    }
}

/// The first usable sensor among `entries` whose name is one of `names`.
pub open spec fn first_sensor_from(entries: Seq<HwmonEntry>, names: Seq<Seq<char>>, i: int) -> Option<
    int,
>
    decreases entries.len() - i,
{
    if i < 0 || i >= entries.len() {
        None
    } else if exists|k: int| 0 <= k < names.len() && sensor_named(entries, i, #[trigger] names[k]) {
        Some(i)
    } else {
        first_sensor_from(entries, names, i + 1)
    }
}

/// The CPU temperature sensor: the first `coretemp` device, else the first
/// `k10temp`, else the first `zenpower`, else the first `acpitz`.
pub open spec fn cpu_sensor(entries: Seq<HwmonEntry>) -> Option<int> {
    match first_sensor_from(entries, seq!["coretemp"@], 0) {
        Some(i) => Some(i),
        None => match first_sensor_from(entries, seq!["k10temp"@], 0) {
            Some(i) => Some(i),
            None => match first_sensor_from(entries, seq!["zenpower"@], 0) {
                Some(i) => Some(i),
                None => first_sensor_from(entries, seq!["acpitz"@], 0),
            },
        },
    }
}

/// The GPU temperature sensor read through hwmon: the first `amdgpu`,
/// `i915` or `nouveau` device.
pub open spec fn gpu_sensor(entries: Seq<HwmonEntry>) -> Option<int> {
    first_sensor_from(entries, seq!["amdgpu"@, "i915"@, "nouveau"@], 0)
}

/// Whether entry `e` is a usable sensor named `name` (after trimming).
fn entry_is(e: &HwmonEntry, name: &str) -> (r: bool)
    ensures
        r == (e.has_temp_input && match e.name {
            Some(n) => trim_seq(n@) == name@,
            None => false,
        }),
{
    if !e.has_temp_input {
        return false;
    }
    match &e.name {
        Some(n) => {
            let t = trimmed(&chars_of(n.as_str()));
            chars_equal(&t, name)
        },
        None => false,
    }
}

/// The first usable sensor named `name`.
fn first_named(entries: &Vec<HwmonEntry>, name: &str) -> (r: Option<usize>)
    ensures
        r matches Some(i) ==> first_sensor_from(entries@, seq![name@], 0) == Some(i as int),
        r is None ==> first_sensor_from(entries@, seq![name@], 0) is None,
{
    let ghost names = seq![name@];
    let mut i: usize = 0;
    while i < entries.len()
        invariant
            i <= entries.len(),
            names == seq![name@],
            first_sensor_from(entries@, names, 0) == first_sensor_from(entries@, names, i as int),
        decreases entries.len() - i,
    {
        if entry_is(&entries[i], name) {
            assert(sensor_named(entries@, i as int, names[0]));
            return Some(i);
        }
        assert(!sensor_named(entries@, i as int, names[0]));
        i = i + 1;
    }
    None
}

/// Find the coretemp hwmon device, or else the first fallback (k10temp,
/// zenpower, acpitz) in that order, that has a temp1_input (package
/// temperature).
pub fn find_cpu_sensor(entries: &Vec<HwmonEntry>) -> (r: Option<usize>)
    ensures
        r matches Some(i) ==> cpu_sensor(entries@) == Some(i as int),
        r is None ==> cpu_sensor(entries@) is None,
{
    match first_named(entries, "coretemp") {
        Some(i) => Some(i),
        None => match first_named(entries, "k10temp") {
            Some(i) => Some(i),
            None => match first_named(entries, "zenpower") {
                Some(i) => Some(i),
                None => first_named(entries, "acpitz"),
            },
        },
    }
}

/// Find the first amdgpu, i915 or nouveau hwmon device that has a temp1_input.
pub fn find_gpu_sensor(entries: &Vec<HwmonEntry>) -> (r: Option<usize>)
    ensures
        r matches Some(i) ==> gpu_sensor(entries@) == Some(i as int),
        r is None ==> gpu_sensor(entries@) is None,
{
    let ghost names = seq!["amdgpu"@, "i915"@, "nouveau"@];
    let mut i: usize = 0;
    while i < entries.len()
        invariant
            i <= entries.len(),
            names == seq!["amdgpu"@, "i915"@, "nouveau"@],
            first_sensor_from(entries@, names, 0) == first_sensor_from(entries@, names, i as int),
        decreases entries.len() - i,
    {
        let e = &entries[i];
        if entry_is(e, "amdgpu") || entry_is(e, "i915") || entry_is(e, "nouveau") {
            assert(sensor_named(entries@, i as int, names[0]) || sensor_named(
                entries@,
                i as int,
                names[1],
            ) || sensor_named(entries@, i as int, names[2]));
            return Some(i);
        }
        assert forall|k: int| 0 <= k < names.len() implies !sensor_named(
            entries@,
            i as int,
            #[trigger] names[k],
        ) by {
            if k == 0 {
            } else if k == 1 {
            } else {
            }
        }
        i = i + 1;
    }
    None
}

/// Entry `i` is a usable sensor with one of `names`.
pub open spec fn any_named(entries: Seq<HwmonEntry>, names: Seq<Seq<char>>, i: int) -> bool {
    exists|k: int| 0 <= k < names.len() && sensor_named(entries, i, #[trigger] names[k])
}

/// Entry `i` is the first usable sensor named `name`.
pub open spec fn first_with_name(entries: Seq<HwmonEntry>, name: Seq<char>, i: int) -> bool {
    sensor_named(entries, i, name) && forall|j: int| 0 <= j < i ==> !sensor_named(entries, j, name)
}

/// No usable sensor is named `name`.
pub open spec fn none_named(entries: Seq<HwmonEntry>, name: Seq<char>) -> bool {
    forall|j: int| !sensor_named(entries, j, name)
}

/// The search from entry `v` on finds the first entry that has one of the
/// names, or nothing when no entry from `v` on has one.
proof fn lemma_first_sensor_from(entries: Seq<HwmonEntry>, names: Seq<Seq<char>>, v: int)
    requires
        0 <= v,
    ensures
        first_sensor_from(entries, names, v) matches Some(i) ==> v <= i && any_named(
            entries,
            names,
            i,
        ) && forall|j: int| v <= j < i ==> !any_named(entries, names, j),
        forall|i: int|
            v <= i && #[trigger] any_named(entries, names, i) && (forall|j: int|
                v <= j < i ==> !any_named(entries, names, j)) ==> first_sensor_from(
                entries,
                names,
                v,
            ) == Some(i),
        first_sensor_from(entries, names, v) is None <==> forall|j: int|
            v <= j ==> !any_named(entries, names, j),
    decreases entries.len() - v,
{
    if v < entries.len() {
        lemma_first_sensor_from(entries, names, v + 1);
        if !any_named(entries, names, v) {
            assert forall|i: int|
                (v <= i && any_named(entries, names, i) && forall|j: int|
                    v <= j < i ==> !any_named(entries, names, j)) implies v + 1 <= i by {
                if i == v {
                }
            }
            assert((forall|j: int| v + 1 <= j ==> !any_named(entries, names, j)) ==> forall|j: int|
                v <= j ==> !any_named(entries, names, j)) by {
                if forall|j: int| v + 1 <= j ==> !any_named(entries, names, j) {
                    assert forall|j: int| v <= j implies !any_named(entries, names, j) by {
                        if j == v {
                        } else {
                            assert(v + 1 <= j);
                        }
                    }
                }
            }
        }
    } else {
        assert forall|j: int| v <= j implies !any_named(entries, names, j) by {
            if any_named(entries, names, j) {
                let k = choose|k: int| 0 <= k < names.len() && sensor_named(entries, j, names[k]);
                assert(sensor_named(entries, j, names[k]));
            }
        }
    }
}

/// With a single name, the search from the first entry finds the first
/// usable sensor with that name.
proof fn lemma_first_named(entries: Seq<HwmonEntry>, name: Seq<char>)
    ensures
        first_sensor_from(entries, seq![name], 0) matches Some(i) ==> first_with_name(
            entries,
            name,
            i,
        ),
        forall|i: int|
            #[trigger] first_with_name(entries, name, i) ==> first_sensor_from(
                entries,
                seq![name],
                0,
            ) == Some(i),
        first_sensor_from(entries, seq![name], 0) is None <==> none_named(entries, name),
{
    let names = seq![name];
    lemma_first_sensor_from(entries, names, 0);
    assert(names[0] == name);
    assert forall|i: int| #[trigger] any_named(entries, names, i) == sensor_named(entries, i, name) by {
        if sensor_named(entries, i, name) {
            assert(sensor_named(entries, i, names[0]));
        }
    }
    assert forall|i: int| #[trigger] first_with_name(entries, name, i) implies first_sensor_from(
        entries,
        names,
        0,
    ) == Some(i) by {
        assert(any_named(entries, names, i));
        assert forall|j: int| 0 <= j < i implies !any_named(entries, names, j) by {
            assert(!sensor_named(entries, j, name));
        }
    }
    if first_sensor_from(entries, names, 0) is None {
        assert forall|j: int| !sensor_named(entries, j, name) by {
            if 0 <= j {
                assert(!any_named(entries, names, j));
            }
        }
    }
    if none_named(entries, name) {
        assert forall|j: int| 0 <= j implies !any_named(entries, names, j) by {
            assert(!sensor_named(entries, j, name));
        }
    }
    if let Some(i) = first_sensor_from(entries, names, 0) {
        assert forall|j: int| 0 <= j < i implies !sensor_named(entries, j, name) by {
            assert(!any_named(entries, names, j));
        }
    }
}

/// The CPU sensor is the first usable `coretemp` device; without one, the
/// first `k10temp`; without those, the first `zenpower`; without those, the
/// first `acpitz`; and there is none when no usable device has one of these
/// four names.
pub proof fn lemma_cpu_sensor_choice(entries: Seq<HwmonEntry>)
    ensures
        cpu_sensor(entries) matches Some(i) ==> {
            ||| first_with_name(entries, "coretemp"@, i)
            ||| none_named(entries, "coretemp"@) && first_with_name(entries, "k10temp"@, i)
            ||| none_named(entries, "coretemp"@) && none_named(entries, "k10temp"@)
                && first_with_name(entries, "zenpower"@, i)
            ||| none_named(entries, "coretemp"@) && none_named(entries, "k10temp"@)
                && none_named(entries, "zenpower"@) && first_with_name(entries, "acpitz"@, i)
        },
        forall|i: int|
            first_with_name(entries, "coretemp"@, i) ==> cpu_sensor(entries) == Some(i),
        forall|i: int|
            none_named(entries, "coretemp"@) && first_with_name(entries, "k10temp"@, i)
                ==> cpu_sensor(entries) == Some(i),
        forall|i: int|
            none_named(entries, "coretemp"@) && none_named(entries, "k10temp"@)
                && first_with_name(entries, "zenpower"@, i) ==> cpu_sensor(entries) == Some(i),
        forall|i: int|
            none_named(entries, "coretemp"@) && none_named(entries, "k10temp"@) && none_named(
                entries,
                "zenpower"@,
            ) && first_with_name(entries, "acpitz"@, i) ==> cpu_sensor(entries) == Some(i),
        cpu_sensor(entries) is None <==> none_named(entries, "coretemp"@) && none_named(
            entries,
            "k10temp"@,
        ) && none_named(entries, "zenpower"@) && none_named(entries, "acpitz"@),
{
    lemma_first_named(entries, "coretemp"@);
    lemma_first_named(entries, "k10temp"@);
    lemma_first_named(entries, "zenpower"@);
    lemma_first_named(entries, "acpitz"@);
}

/// Entry `i` is a usable device named `amdgpu`, `i915` or `nouveau`.
pub open spec fn gpu_named(entries: Seq<HwmonEntry>, i: int) -> bool {
    sensor_named(entries, i, "amdgpu"@) || sensor_named(entries, i, "i915"@) || sensor_named(
        entries,
        i,
        "nouveau"@,
    )
}

/// The GPU sensor read through hwmon is the first usable device named
/// `amdgpu`, `i915` or `nouveau`, and there is none when no usable device has
/// one of these names.
pub proof fn lemma_gpu_sensor_choice(entries: Seq<HwmonEntry>)
    ensures
        gpu_sensor(entries) matches Some(i) ==> {
            &&& gpu_named(entries, i)
            &&& forall|j: int| 0 <= j < i ==> !gpu_named(entries, j)
        },
        forall|i: int|
            gpu_named(entries, i) && (forall|j: int| 0 <= j < i ==> !gpu_named(entries, j))
                ==> gpu_sensor(entries) == Some(i),
        gpu_sensor(entries) is None <==> none_named(entries, "amdgpu"@) && none_named(
            entries,
            "i915"@,
        ) && none_named(entries, "nouveau"@),
{
    let names = seq!["amdgpu"@, "i915"@, "nouveau"@];
    lemma_first_sensor_from(entries, names, 0);
    assert(names[0] == "amdgpu"@ && names[1] == "i915"@ && names[2] == "nouveau"@);
    assert forall|i: int| #[trigger] any_named(entries, names, i) == gpu_named(entries, i) by {
        if gpu_named(entries, i) {
            if sensor_named(entries, i, "amdgpu"@) {
                assert(sensor_named(entries, i, names[0]));
            } else if sensor_named(entries, i, "i915"@) {
                assert(sensor_named(entries, i, names[1]));
            } else {
                assert(sensor_named(entries, i, names[2]));
            }
        }
        if any_named(entries, names, i) {
            let k = choose|k: int| 0 <= k < names.len() && sensor_named(entries, i, names[k]);
            assert(k == 0 || k == 1 || k == 2);
        }
    }
    if let Some(i) = gpu_sensor(entries) {
        assert(any_named(entries, names, i));
        assert forall|j: int| 0 <= j < i implies !gpu_named(entries, j) by {
            assert(!any_named(entries, names, j));
        }
    }
    assert forall|i: int|
        gpu_named(entries, i) && (forall|j: int| 0 <= j < i ==> !gpu_named(entries, j)) implies gpu_sensor(
        entries,
    ) == Some(i) by {
        assert(any_named(entries, names, i));
        assert forall|j: int| 0 <= j < i implies !any_named(entries, names, j) by {
            assert(!gpu_named(entries, j));
        }
    }
    assert((forall|j: int| 0 <= j ==> !any_named(entries, names, j)) == (none_named(
        entries,
        "amdgpu"@,
    ) && none_named(entries, "i915"@) && none_named(entries, "nouveau"@))) by {
        if forall|j: int| 0 <= j ==> !any_named(entries, names, j) {
            assert forall|j: int| !sensor_named(entries, j, "amdgpu"@) by {
                if 0 <= j {
                    assert(!any_named(entries, names, j));
                }
            }
            assert forall|j: int| !sensor_named(entries, j, "i915"@) by {
                if 0 <= j {
                    assert(!any_named(entries, names, j));
                }
            }
            assert forall|j: int| !sensor_named(entries, j, "nouveau"@) by {
                if 0 <= j {
                    assert(!any_named(entries, names, j));
                }
            }
        }
        if none_named(entries, "amdgpu"@) && none_named(entries, "i915"@) && none_named(
            entries,
            "nouveau"@,
        ) {
            assert forall|j: int| 0 <= j implies !any_named(entries, names, j) by {
                assert(!gpu_named(entries, j));
            }
        }
    }
}

} // verus!
