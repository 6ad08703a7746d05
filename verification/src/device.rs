//! The device registry: one entry per logical input-device class, each
//! owning mutable hardware state and a fixed table of pure mapping
//! functions from device state to typed action values.
//!
//! Axis values are carried as the raw signed hardware counts the events
//! deliver; conversion to a floating-point unit is left to the platform
//! layer outside this crate.

use crate::intern::Interner;
use crate::intern::Path;
use crate::intern::model_extends;
use crate::intern::spec_intern;
use crate::intern::spec_path_of;
use vstd::prelude::*;

verus! {

/// A typed value produced by one mapping function.
#[derive(Copy, Clone, PartialEq, Eq, Debug, Structural)]
pub enum ActionValue {
    Boolean(bool),
    /// A scalar axis value, in raw hardware counts.
    Scalar(i64),
}

/// The pure mapping functions a device can install, as a closed set of
/// variants dispatched by `match` rather than stored function values.
#[derive(Copy, Clone, PartialEq, Eq, Debug, Structural)]
pub enum MappingKind {
    /// Placeholder for the primary button: no button state is tracked yet,
    /// so it reports a constant `true`.
    ButtonClick,
    /// The accumulated horizontal pointer delta.
    DeltaX,
    /// The accumulated vertical pointer delta.
    DeltaY,
}

/// Mutable pointer-device state: the 2D delta accumulated since the last
/// reset.
#[derive(Copy, Clone, PartialEq, Eq, Debug, Structural)]
pub struct Mouse {
    pub delta_x: i64,
    pub delta_y: i64,
}

/// Hardware state, specific to each device class.  The keyboard tracks no
/// per-key state yet: a known gap, kept explicit.
#[derive(Copy, Clone, PartialEq, Eq, Debug, Structural)]
pub enum DeviceState {
    Mouse(Mouse),
    Keyboard,
}

/// Addition on raw counts saturates at the representation bounds instead of
/// wrapping or failing.
pub open spec fn spec_sat_add(a: int, b: int) -> int {
    if a + b > i64::MAX {
        i64::MAX as int
    } else if a + b < i64::MIN {
        i64::MIN as int
    } else {
        a + b
    }
}

pub fn sat_add(a: i64, b: i64) -> (r: i64)
    ensures
        r as int == spec_sat_add(a as int, b as int),
{
    if b >= 0 {
        if a > i64::MAX - b {
            i64::MAX
        } else {
            a + b
        }
    } else {
        if a < i64::MIN - b {
            i64::MIN
        } else {
            a + b
        }
    }
}

pub open spec fn spec_mouse_of(state: DeviceState) -> Mouse {
    match state {
        DeviceState::Mouse(m) => m,
        DeviceState::Keyboard => Mouse { delta_x: 0, delta_y: 0 },
    }
}

/// What a mapping function reads off the given state snapshot.
pub open spec fn spec_eval(kind: MappingKind, state: DeviceState) -> ActionValue {
    match kind {
        MappingKind::ButtonClick => ActionValue::Boolean(true),
        MappingKind::DeltaX => ActionValue::Scalar(spec_mouse_of(state).delta_x),
        MappingKind::DeltaY => ActionValue::Scalar(spec_mouse_of(state).delta_y),
    }
}

/// First mapping installed for `input`, if any.  Looking up a path not in
/// the table yields no mapping, which is not an error.
pub open spec fn spec_mapping_at(mappings: Seq<(Path, MappingKind)>, input: Path) -> Option<
    MappingKind,
>
    decreases mappings.len(),
{
    if mappings.len() == 0 {
        None
    } else if mappings[0].0 == input {
        Some(mappings[0].1)
    } else {
        spec_mapping_at(mappings.drop_first(), input)
    }
}

/// One class of physical hardware: its current state and its fixed table of
/// mapping functions, keyed by input path.
pub struct Device {
    pub mappings: Vec<(Path, MappingKind)>,
    pub state: DeviceState,
}

impl Device {
    /// Mappings that read the pointer are only installed on a device whose
    /// state is pointer state.
    pub open spec fn wf(&self) -> bool {
        self.state is Mouse || self.mappings@.len() == 0
    }

    /// Builds the mouse device: zeroed delta state, and the static mapping
    /// table interned as (path-suffix, function) pairs.
    pub fn new_mouse(intern: &mut Interner) -> (d: Device)
        requires
            old(intern).wf(),
        ensures
            final(intern).wf(),
            model_extends(final(intern)@, old(intern)@),
            final(intern)@ == spec_intern(
                spec_intern(spec_intern(old(intern)@, "left/click"@), "delta_x/scalar"@),
                "delta_y/scalar"@,
            ),
            d.wf(),
            d.state == DeviceState::Mouse(Mouse { delta_x: 0i64, delta_y: 0i64 }),
            d.mappings@ =~= seq![
                (
                    Path(spec_path_of(old(intern)@, "left/click"@) as u64),
                    MappingKind::ButtonClick,
                ),
                (
                    Path(
                        spec_path_of(spec_intern(old(intern)@, "left/click"@), "delta_x/scalar"@)
                            as u64,
                    ),
                    MappingKind::DeltaX,
                ),
                (
                    Path(
                        spec_path_of(
                            spec_intern(spec_intern(old(intern)@, "left/click"@), "delta_x/scalar"@),
                            "delta_y/scalar"@,
                        ) as u64,
                    ),
                    MappingKind::DeltaY,
                ),
            ],
    {
        let click = intern.intern("left/click");
        let dx = intern.intern("delta_x/scalar");
        let dy = intern.intern("delta_y/scalar");
        let mut mappings: Vec<(Path, MappingKind)> = Vec::new();
        mappings.push((click, MappingKind::ButtonClick));
        mappings.push((dx, MappingKind::DeltaX));
        mappings.push((dy, MappingKind::DeltaY));
        Device {
            mappings,
            state: DeviceState::Mouse(Mouse { delta_x: 0, delta_y: 0 }),
        }
    }

    /// Builds the keyboard device: no tracked state, no mappings.
    pub fn new_keyboard() -> (d: Device)
        ensures
            d.wf(),
            d.state == DeviceState::Keyboard,
            d.mappings@ =~= Seq::<(Path, MappingKind)>::empty(),
    {
        Device { mappings: Vec::new(), state: DeviceState::Keyboard }
    }

    /// Clears transient accumulator state.  The pointer's deltas return to
    /// exactly (0, 0); latched state and the mapping table are untouched.
    pub fn reset(&mut self)
        ensures
            final(self).mappings == old(self).mappings,
            old(self).state is Mouse ==> final(self).state == DeviceState::Mouse(
                Mouse { delta_x: 0i64, delta_y: 0i64 },
            ),
            !(old(self).state is Mouse) ==> final(self).state == old(self).state,
            old(self).wf() ==> final(self).wf(),
    {
        match self.state {
            DeviceState::Mouse(_) => {
                self.state = DeviceState::Mouse(Mouse { delta_x: 0, delta_y: 0 });
            }
            DeviceState::Keyboard => {}
        }
    }

    /// Folds one pointer-motion event into the accumulated deltas
    /// (saturating).
    pub fn apply_motion(&mut self, dx: i64, dy: i64)
        requires
            old(self).state is Mouse,
        ensures
            final(self).mappings == old(self).mappings,
            final(self).state == DeviceState::Mouse(
                Mouse {
                    delta_x: spec_sat_add(
                        spec_mouse_of(old(self).state).delta_x as int,
                        dx as int,
                    ) as i64,
                    delta_y: spec_sat_add(
                        spec_mouse_of(old(self).state).delta_y as int,
                        dy as int,
                    ) as i64,
                },
            ),
    {
        match self.state {
            DeviceState::Mouse(m) => {
                self.state = DeviceState::Mouse(
                    Mouse { delta_x: sat_add(m.delta_x, dx), delta_y: sat_add(m.delta_y, dy) },
                );
            }
            DeviceState::Keyboard => {
                proof {
                    assert(false);
                }
            }
        }
    }

    /// Reads the pointer state.  Calling this on a device of another class
    /// is a caller contract violation, excluded by precondition.
    pub fn get_mouse(&self) -> (m: &Mouse)
        requires
            self.state is Mouse,
        ensures
            *m == spec_mouse_of(self.state),
    {
        match &self.state {
            DeviceState::Mouse(m) => m,
            DeviceState::Keyboard => {
                proof {
                    assert(false);
                }
                &Mouse { delta_x: 0, delta_y: 0 }
            }
        }
    }

    /// First mapping installed for `input`, if any.
    pub fn mapping_at(&self, input: Path) -> (r: Option<MappingKind>)
        ensures
            r == spec_mapping_at(self.mappings@, input),
    {
        let n = self.mappings.len();
        let mut i: usize = 0;
        proof {
            assert(self.mappings@.skip(0) =~= self.mappings@);
        }
        while i < n
            invariant
                n == self.mappings@.len(),
                i <= n,
                spec_mapping_at(self.mappings@, input) == spec_mapping_at(
                    self.mappings@.skip(i as int),
                    input,
                ),
            decreases n - i,
        {
            let entry = self.mappings[i];
            proof {
                assert(self.mappings@.skip(i as int)[0] == self.mappings@[i as int]);
                assert(self.mappings@.skip(i as int).drop_first() =~= self.mappings@.skip(
                    i as int + 1,
                ));
            }
            if entry.0 == input {
                return Some(entry.1);
            }
            i = i + 1;
        }
        proof {
            assert(self.mappings@.skip(n as int) =~= Seq::<(Path, MappingKind)>::empty());
        }
        None
    }

    /// Invokes a mapping function on a state snapshot.  Pointer mappings
    /// require pointer state, which well-formed devices guarantee.
    pub fn eval_mapping(kind: MappingKind, state: &DeviceState) -> (v: ActionValue)
        requires
            kind is ButtonClick || *state is Mouse,
        ensures
            v == spec_eval(kind, *state),
    {
        match kind {
            MappingKind::ButtonClick => ActionValue::Boolean(true),
            MappingKind::DeltaX => {
                match state {
                    DeviceState::Mouse(m) => ActionValue::Scalar(m.delta_x),
                    DeviceState::Keyboard => {
                        proof {
                            assert(false);
                        }
                        ActionValue::Scalar(0)
                    }
                }
            }
            MappingKind::DeltaY => {
                match state {
                    DeviceState::Mouse(m) => ActionValue::Scalar(m.delta_y),
                    DeviceState::Keyboard => {
                        proof {
                            assert(false);
                        }
                        ActionValue::Scalar(0)
                    }
                }
            }
        }
    }
}

} // verus!
