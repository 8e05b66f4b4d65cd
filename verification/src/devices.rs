//! Execution-target descriptors and the pure selection rules over them.
//!
//! Enumerating simulators and physical devices is an external query; this
//! module holds the descriptors those queries fill in and the verified
//! rules that pick a target from a list: by name (case-insensitively), by
//! identifier, by boot state, or by availability.

use vstd::prelude::*;

use crate::error::XcbridgeError;
use crate::text::contains_seq;
use crate::text::str_contains;

verus! {

/// A simulator descriptor.
pub struct Simulator {
    pub udid: String,
    pub name: String,
    pub state: String,
    pub is_available: bool,
    pub device_type_identifier: Option<String>,
    pub data_path: Option<String>,
    pub log_path: Option<String>,
}

/// A simulator runtime descriptor.
pub struct Runtime {
    pub bundle_path: String,
    pub build_version: String,
    pub platform: String,
    pub runtime_root: String,
    pub identifier: String,
    pub version: String,
    pub is_internal: bool,
    pub is_available: bool,
    pub name: String,
}

/// A physical device descriptor.
pub struct Device {
    pub udid: String,
    pub name: String,
    pub os_version: String,
    pub connection_type: String,
    pub platform: String,
    pub model_name: String,
}

/// The lower-case folding of a character sequence.
pub uninterp spec fn lower_of(s: Seq<char>) -> Seq<char>;

/// Relies on `str::to_lowercase`: the result depends on the characters
/// alone.
#[verifier::external_body]
fn lowercase(s: &str) -> (r: String)
    ensures
        r@ == lower_of(s@),
        s@.len() == 0 ==> r@.len() == 0,
{
    s.to_lowercase()
}

/// Copies an optional string.
pub fn clone_opt_string(v: &Option<String>) -> (r: Option<String>)
    ensures
        r == *v,
{
    match v {
        Some(s) => Some(s.clone()),
        None => None,
    }
}

/// Copies a simulator descriptor.
pub fn clone_simulator(s: &Simulator) -> (r: Simulator)
    ensures
        r == *s,
{
    Simulator {
        udid: s.udid.clone(),
        name: s.name.clone(),
        state: s.state.clone(),
        is_available: s.is_available,
        device_type_identifier: clone_opt_string(&s.device_type_identifier),
        data_path: clone_opt_string(&s.data_path),
        log_path: clone_opt_string(&s.log_path),
    }
}

/// A simulator matches a request: its name holds the requested device type
/// (case-insensitively), and, when a runtime is requested, its device-type
/// identifier holds that runtime.
pub open spec fn simulator_matches(s: Simulator, device_type: Seq<char>, runtime: Option<Seq<char>>) -> bool {
    &&& contains_seq(lower_of(s.name@), lower_of(device_type))
    &&& match runtime {
        Some(rt) => match s.device_type_identifier {
            Some(id) => contains_seq(id@, rt),
            None => false,
        },
        None => true,
    }
}

/// Index of the first simulator matching the request, or a negative value.
pub open spec fn first_match_idx(
    sims: Seq<Simulator>,
    device_type: Seq<char>,
    runtime: Option<Seq<char>>,
) -> int
    decreases sims.len(),
{
    if sims.len() == 0 {
        -1
    } else if simulator_matches(sims[0], device_type, runtime) {
        0
    } else {
        let r = first_match_idx(sims.drop_first(), device_type, runtime);
        if r < 0 {
            -1
        } else {
            r + 1
        }
    }
}

proof fn lemma_first_match_idx_at(
    sims: Seq<Simulator>,
    device_type: Seq<char>,
    runtime: Option<Seq<char>>,
    i: int,
)
    requires
        0 <= i <= sims.len(),
        forall|j: int| 0 <= j < i ==> !simulator_matches(#[trigger] sims[j], device_type, runtime),
        i < sims.len() ==> simulator_matches(sims[i], device_type, runtime),
    ensures
        i < sims.len() ==> first_match_idx(sims, device_type, runtime) == i,
        i == sims.len() ==> first_match_idx(sims, device_type, runtime) == -1,
    decreases i,
{
    if i > 0 {
        lemma_first_match_idx_at(sims.drop_first(), device_type, runtime, i - 1);
    }
}

/// Whether one simulator matches a request.
fn simulator_matches_exec(s: &Simulator, device_type: &String, runtime: &Option<String>) -> (r:
    bool)
    ensures
        r == simulator_matches(*s, device_type@, runtime.deep_view()),
{
    let name_lower = lowercase(s.name.as_str());
    let wanted_lower = lowercase(device_type.as_str());
    if !str_contains(name_lower.as_str(), wanted_lower.as_str()) {
        return false;
    }
    match runtime {
        Some(rt) => match &s.device_type_identifier {
            Some(id) => str_contains(id.as_str(), rt.as_str()),
            None => false,
        },
        None => true,
    }
}

/// Picks the first simulator whose name holds the device type
/// (case-insensitively) and, when given, whose device-type identifier
/// holds the runtime; reports the device type as not found otherwise.
pub fn select_simulator(
    sims: &Vec<Simulator>,
    device_type: &String,
    runtime: &Option<String>,
) -> (r: std::result::Result<Simulator, XcbridgeError>)
    ensures
        match r {
            Ok(s) => {
                &&& first_match_idx(sims@, device_type@, runtime.deep_view()) >= 0
                &&& s == sims@[first_match_idx(sims@, device_type@, runtime.deep_view())]
            },
            Err(e) => {
                &&& first_match_idx(sims@, device_type@, runtime.deep_view()) < 0
                &&& e == XcbridgeError::SimulatorNotFound(*device_type)
            },
        },
{
    let mut i: usize = 0;
    while i < sims.len()
        invariant
            0 <= i <= sims.len(),
            forall|j: int|
                0 <= j < i ==> !simulator_matches(
                    #[trigger] sims@[j],
                    device_type@,
                    runtime.deep_view(),
                ),
        decreases sims.len() - i,
    {
        if simulator_matches_exec(&sims[i], device_type, runtime) {
            proof {
                lemma_first_match_idx_at(sims@, device_type@, runtime.deep_view(), i as int);
            }
            return Ok(clone_simulator(&sims[i]));
        }
        i = i + 1;
    }
    proof {
        lemma_first_match_idx_at(
            sims@,
            device_type@,
            runtime.deep_view(),
            sims@.len() as int,
        );
    }
    Err(XcbridgeError::SimulatorNotFound(device_type.clone()))
}

/// Index of the first simulator with the given identifier, or a negative
/// value.
pub open spec fn udid_match_idx(sims: Seq<Simulator>, udid: Seq<char>) -> int
    decreases sims.len(),
{
    if sims.len() == 0 {
        -1
    } else if sims[0].udid@ == udid {
        0
    } else {
        let r = udid_match_idx(sims.drop_first(), udid);
        if r < 0 {
            -1
        } else {
            r + 1
        }
    }
}

proof fn lemma_udid_match_idx_at(sims: Seq<Simulator>, udid: Seq<char>, i: int)
    requires
        0 <= i <= sims.len(),
        forall|j: int| 0 <= j < i ==> (#[trigger] sims[j]).udid@ != udid,
        i < sims.len() ==> sims[i].udid@ == udid,
    ensures
        i < sims.len() ==> udid_match_idx(sims, udid) == i,
        i == sims.len() ==> udid_match_idx(sims, udid) == -1,
    decreases i,
{
    if i > 0 {
        lemma_udid_match_idx_at(sims.drop_first(), udid, i - 1);
    }
}

/// Picks the simulator with the given identifier; reports the identifier
/// as not found otherwise.
pub fn select_simulator_by_udid(sims: &Vec<Simulator>, udid: &String) -> (r: std::result::Result<
    Simulator,
    XcbridgeError,
>)
    ensures
        match r {
            Ok(s) => udid_match_idx(sims@, udid@) >= 0 && s == sims@[udid_match_idx(
                sims@,
                udid@,
            )],
            Err(e) => udid_match_idx(sims@, udid@) < 0 && e == XcbridgeError::SimulatorNotFound(
                *udid,
            ),
        },
{
    let mut i: usize = 0;
    while i < sims.len()
        invariant
            0 <= i <= sims.len(),
            forall|j: int| 0 <= j < i ==> (#[trigger] sims@[j]).udid@ != udid@,
        decreases sims.len() - i,
    {
        if sims[i].udid == *udid {
            proof {
                lemma_udid_match_idx_at(sims@, udid@, i as int);
            }
            return Ok(clone_simulator(&sims[i]));
        }
        i = i + 1;
    }
    proof {
        lemma_udid_match_idx_at(sims@, udid@, sims@.len() as int);
    }
    Err(XcbridgeError::SimulatorNotFound(udid.clone()))
}

/// Index of the first booted simulator, or a negative value.
pub open spec fn booted_idx(sims: Seq<Simulator>) -> int
    decreases sims.len(),
{
    if sims.len() == 0 {
        -1
    } else if sims[0].state@ == "Booted"@ {
        0
    } else {
        let r = booted_idx(sims.drop_first());
        if r < 0 {
            -1
        } else {
            r + 1
        }
    }
}

proof fn lemma_booted_idx_at(sims: Seq<Simulator>, i: int)
    requires
        0 <= i <= sims.len(),
        forall|j: int| 0 <= j < i ==> (#[trigger] sims[j]).state@ != "Booted"@,
        i < sims.len() ==> sims[i].state@ == "Booted"@,
    ensures
        i < sims.len() ==> booted_idx(sims) == i,
        i == sims.len() ==> booted_idx(sims) == -1,
    decreases i,
{
    if i > 0 {
        lemma_booted_idx_at(sims.drop_first(), i - 1);
    }
}

/// Picks the first booted simulator, if any.
pub fn select_booted_simulator(sims: &Vec<Simulator>) -> (r: Option<Simulator>)
    ensures
        match r {
            Some(s) => booted_idx(sims@) >= 0 && s == sims@[booted_idx(sims@)],
            None => booted_idx(sims@) < 0,
        },
{
    let booted = "Booted".to_owned();
    let mut i: usize = 0;
    while i < sims.len()
        invariant
            booted@ == "Booted"@,
            0 <= i <= sims.len(),
            forall|j: int| 0 <= j < i ==> (#[trigger] sims@[j]).state@ != "Booted"@,
        decreases sims.len() - i,
    {
        if sims[i].state == booted {
            proof {
                lemma_booted_idx_at(sims@, i as int);
            }
            return Some(clone_simulator(&sims[i]));
        }
        i = i + 1;
    }
    proof {
        lemma_booted_idx_at(sims@, sims@.len() as int);
    }
    None
}

/// The available simulators of a listing, in order.
pub open spec fn available_of(sims: Seq<Simulator>) -> Seq<Simulator>
    decreases sims.len(),
{
    if sims.len() == 0 {
        Seq::empty()
    } else {
        let r = available_of(sims.drop_last());
        if sims.last().is_available {
            r.push(sims.last())
        } else {
            r
        }
    }
}

/// Keeps the available simulators of a listing, in order.
pub fn available_simulators(sims: &Vec<Simulator>) -> (r: Vec<Simulator>)
    ensures
        r@ == available_of(sims@),
{
    let mut r: Vec<Simulator> = Vec::new();
    let mut i: usize = 0;
    while i < sims.len()
        invariant
            0 <= i <= sims.len(),
            r@ == available_of(sims@.take(i as int)),
        decreases sims.len() - i,
    {
        proof {
            assert(sims@.take(i as int + 1).drop_last() =~= sims@.take(i as int));
            assert(sims@.take(i as int + 1).last() == sims@[i as int]);
        }
        if sims[i].is_available {
            r.push(clone_simulator(&sims[i]));
        }
        i = i + 1;
    }
    proof {
        assert(sims@.take(sims@.len() as int) =~= sims@);
    }
    r
}

} // verus!
