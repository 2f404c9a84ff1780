use vstd::prelude::*;

use crate::camera::Camera;
use crate::gpio::Gpio;

verus! {

/// Requested or reported level of the heater output. `Unknown` means the
/// last commanded level could not be determined; it is distinct from both
/// `On` and `Off` and is never a level a client may request.
#[derive(Debug, Clone, Copy, PartialEq, Eq, Structural)]
pub enum HeaterState {
    On,
    Off,
    Unknown,
}

/// A client's request to put the heater output at a level.
pub struct HeaterEnableRequest {
    pub state: HeaterState,
}

/// Outcome of applying a request: the level the output was at before, and
/// whether a physical write occurred.
pub struct HeaterEnableResponse {
    pub prev_state: HeaterState,
    pub changed: bool,
}

/// The current target level of the output.
pub struct HeaterStateResponse {
    pub target: bool,
}

/// Whether honoring `requested` from `previous` is a real transition that
/// needs a physical write. From `Unknown` the output might not match, so
/// every request to `On` or `Off` is honored; a request equal to a known
/// previous level is a no-op, and so is a request of `Unknown` itself.
pub open spec fn spec_changed(previous: HeaterState, requested: HeaterState) -> bool {
    ||| (requested is On && !(previous is On))
    ||| (requested is Off && !(previous is Off))
}

/// Interpret a digital output's read-back: a level that cannot be read
/// back is an unknown previous state, not a default.
pub fn state_from_readback(readback: Option<bool>) -> (r: HeaterState)
    ensures
        r == (match readback {
            Some(true) => HeaterState::On,
            Some(false) => HeaterState::Off,
            None => HeaterState::Unknown,
        }),
{
    match readback {
        Some(true) => HeaterState::On,
        Some(false) => HeaterState::Off,
        None => HeaterState::Unknown,
    }
}

/// Decide the idempotent transition: report the previous level and whether
/// a write is due, and name the level to drive (`None` for a no-op).
/// Exactly one write is due when `changed` holds, none otherwise.
pub fn heater_plan(previous: HeaterState, requested: HeaterState) -> (r: (
    HeaterEnableResponse,
    Option<bool>,
))
    ensures
        r.0.prev_state == previous,
        r.0.changed == spec_changed(previous, requested),
        r.1 == (if spec_changed(previous, requested) {
            Some(requested is On)
        } else {
            None::<bool>
        }),
{
    let action = match (previous, requested) {
        (HeaterState::Off | HeaterState::Unknown, HeaterState::On) => Some(true),
        (HeaterState::On | HeaterState::Unknown, HeaterState::Off) => Some(false),
        _ => None,
    };
    let changed = action.is_some();
    (HeaterEnableResponse { prev_state: previous, changed }, action)
}

/// Apply a requested heater level: read the previous level back from the
/// output, drive the output only on a real transition, and report the
/// previous level and whether a write occurred.
pub fn heater_enable(gpio: &mut Gpio, req: HeaterEnableRequest) -> (r: HeaterEnableResponse)
    ensures
        r.prev_state == (if old(gpio).level() {
            HeaterState::On
        } else {
            HeaterState::Off
        }),
        r.changed == spec_changed(r.prev_state, req.state),
        final(gpio).level() == (if spec_changed(r.prev_state, req.state) {
            req.state is On
        } else {
            old(gpio).level()
        }),
{
    let prev_state = state_from_readback(gpio.get_state());
    let (resp, action) = heater_plan(prev_state, req.state);
    match action {
        Some(level) => gpio.set_state(level),
        None => {},
    }
    resp
}

/// The reported target level for a read-back: the driven level, or off
/// when the output cannot be read back.
pub fn target_from_readback(readback: Option<bool>) -> (r: bool)
    ensures
        r == (readback matches Some(true)),
{
    match readback {
        Some(level) => level,
        None => false,
    }
}

/// Report the current target level of the output.
pub fn heater_state(gpio: &Gpio) -> (r: HeaterStateResponse)
    ensures
        r.target == gpio.level(),
{
    HeaterStateResponse { target: target_from_readback(gpio.get_state()) }
}

/// Idempotence of apply: once a request for a valid level has been
/// honored against an output whose level can be read back, repeating the
/// same request is a no-op — the follow-up call reports no change and the
/// output keeps its level.
pub proof fn lemma_apply_idempotent(level: bool, requested: HeaterState)
    requires
        requested is On || requested is Off,
    ensures
        ({
            let prev1 = if level {
                HeaterState::On
            } else {
                HeaterState::Off
            };
            let level2 = if spec_changed(prev1, requested) {
                requested is On
            } else {
                level
            };
            let prev2 = if level2 {
                HeaterState::On
            } else {
                HeaterState::Off
            };
            !spec_changed(prev2, requested)
        }),
{
}

/// A reader's view of the shared sensing state: the latest snapshot's lamp
/// values and the snapshot's age at the reader's time.
pub struct CameraResponse {
    pub yellow: bool,
    pub green: bool,
    pub age: u64,
}

/// Read the latest snapshot and its age. The reply never mutates the
/// snapshot, and all three fields come from the same published snapshot.
pub fn camera(cam: &Camera, now: u64) -> (r: CameraResponse)
    requires
        cam.captured_spec() <= now,
    ensures
        r.yellow == cam.yellow_spec(),
        r.green == cam.green_spec(),
        r.age == now - cam.captured_spec(),
{
    CameraResponse { yellow: cam.yellow(), green: cam.green(), age: cam.age(now) }
}

} // verus!
