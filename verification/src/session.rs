//! The per-frame session: the device registry, the active interaction
//! profile, and the synchronization loop that reconciles queued hardware
//! events with logical action values.
//!
//! Synchronization never blocks: the platform layer drains whatever events
//! are already queued and hands them in as plain values, so one tick is a
//! bounded reset-then-drain pass.  Queries are read-only snapshots of the
//! device state between ticks.

use crate::action::ActionSet;
use crate::action::ActionStateBoolean;
use crate::action::ActionStateFloat;
use crate::action::ActionType;
use crate::action::spec_sources;
use crate::device::ActionValue;
use crate::device::Device;
use crate::device::DeviceState;
use crate::device::MappingKind;
use crate::device::Mouse;
use crate::device::sat_add;
use crate::device::spec_eval;
use crate::device::spec_mapping_at;
use crate::device::spec_mouse_of;
use crate::device::spec_sat_add;
use crate::error::Error;
use crate::handle::Handle;
use crate::instance::Instance;
use crate::intern::Path;
use crate::intern::model_extends;
use crate::intern::spec_intern;
use crate::intern::spec_path_of;
use vstd::prelude::*;

verus! {

/// The one hardware topology this library models.
#[derive(Copy, Clone, PartialEq, Eq, Debug, Structural)]
pub enum FormFactor {
    Desktop,
}

/// An opaque capability token standing for the machine's input hardware.
#[derive(Copy, Clone, PartialEq, Eq, Debug, Structural)]
pub struct System;

/// One typed hardware event, as drained from the platform queue.  The
/// device class is the discriminator.
#[derive(Copy, Clone, PartialEq, Eq, Debug, Structural)]
pub enum Event {
    /// Relative pointer motion, in raw signed counts per axis.
    MouseMotion { dx: i64, dy: i64 },
    /// A key event: accepted, but no per-key state is tracked yet.
    Key { code: u32 },
    /// An event of an unknown device class: ignored without error.
    Unknown,
}

/// The user paths the session's devices are registered at.
#[derive(Copy, Clone, PartialEq, Eq, Debug, Structural)]
pub struct UserPaths {
    pub mouse: Path,
    pub keyboard: Path,
}

/// The live runtime context: the full device registry, keyed by user
/// path, and the active interaction profile.
pub struct Session {
    pub user_paths: UserPaths,
    pub mouse: Device,
    pub keyboard: Device,
    pub active_profile: Path,
}

/// One event folded into the pointer state: motion accumulates
/// (saturating) into the deltas, key events and unknown classes change
/// nothing.
pub open spec fn spec_apply_event(m: Mouse, e: Event) -> Mouse {
    match e {
        Event::MouseMotion { dx, dy } => Mouse {
            delta_x: spec_sat_add(m.delta_x as int, dx as int) as i64,
            delta_y: spec_sat_add(m.delta_y as int, dy as int) as i64,
        },
        Event::Key { .. } => m,
        Event::Unknown => m,
    }
}

/// The pointer state after draining a queue of events, front first.
pub open spec fn spec_drain(m: Mouse, events: Seq<Event>) -> Mouse
    decreases events.len(),
{
    if events.len() == 0 {
        m
    } else {
        spec_drain(spec_apply_event(m, events[0]), events.drop_first())
    }
}

/// Draining a backlog in one tick equals draining it tick by tick with no
/// reset in between: pointer motion accumulates additively across the
/// whole queue.
pub proof fn lemma_drain_append(m: Mouse, e1: Seq<Event>, e2: Seq<Event>)
    ensures
        spec_drain(m, e1 + e2) == spec_drain(spec_drain(m, e1), e2),
    decreases e1.len(),
{
    if e1.len() == 0 {
        assert(e1 + e2 =~= e2);
    } else {
        assert((e1 + e2)[0] == e1[0]);
        assert((e1 + e2).drop_first() =~= e1.drop_first() + e2);
        lemma_drain_append(spec_apply_event(m, e1[0]), e1.drop_first(), e2);
    }
}

/// The device registered at `user`, if any.
pub open spec fn spec_device_at(s: Session, user: Path) -> Option<Device> {
    if user == s.user_paths.mouse {
        Some(s.mouse)
    } else if user == s.user_paths.keyboard {
        Some(s.keyboard)
    } else {
        None
    }
}

/// What one bound source contributes: the mapped value of the device's
/// current state, or nothing where the device or the mapping is absent.
pub open spec fn spec_value_at(s: Session, pair: (Path, Path)) -> Option<ActionValue> {
    match spec_device_at(s, pair.0) {
        Some(d) => match spec_mapping_at(d.mappings@, pair.1) {
            Some(kind) => Some(spec_eval(kind, d.state)),
            None => None,
        },
        None => None,
    }
}

/// A scalar query folds the sources front first, accumulating scalar
/// contributions additively (saturating) from `acc`; sources that
/// contribute nothing, or a value of another shape, are skipped.
pub open spec fn spec_float_state(s: Session, acc: int, pairs: Seq<(Path, Path)>) -> int
    decreases pairs.len(),
{
    if pairs.len() == 0 {
        acc
    } else {
        let acc2 = match spec_value_at(s, pairs[0]) {
            Some(ActionValue::Scalar(d)) => spec_sat_add(acc, d as int),
            _ => acc,
        };
        spec_float_state(s, acc2, pairs.drop_first())
    }
}

/// A boolean query folds the sources front first, combining boolean
/// contributions by logical or from `acc`.
pub open spec fn spec_bool_state(s: Session, acc: bool, pairs: Seq<(Path, Path)>) -> bool
    decreases pairs.len(),
{
    if pairs.len() == 0 {
        acc
    } else {
        let acc2 = match spec_value_at(s, pairs[0]) {
            Some(ActionValue::Boolean(v)) => acc || v,
            _ => acc,
        };
        spec_bool_state(s, acc2, pairs.drop_first())
    }
}

/// A query over an action with zero bound sources yields the type's zero
/// value, never an error.
pub proof fn lemma_unbound_query_zero(s: Session)
    ensures
        spec_bool_state(s, false, Seq::<(Path, Path)>::empty()) == false,
        spec_float_state(s, 0, Seq::<(Path, Path)>::empty()) == 0,
{
}

/// A scalar action bound to exactly one horizontal-delta source reads the
/// pointer's accumulated horizontal delta, untouched.
pub proof fn lemma_single_delta_source_reads_delta(s: Session, user: Path, input: Path)
    requires
        s.wf(),
        user == s.user_paths.mouse,
        spec_mapping_at(s.mouse.mappings@, input) == Some(MappingKind::DeltaX),
    ensures
        spec_float_state(s, 0, seq![(user, input)]) == spec_mouse_of(s.mouse.state).delta_x as int,
{
    let pair = (user, input);
    let dx = spec_mouse_of(s.mouse.state).delta_x;
    assert(spec_value_at(s, pair) == Some(ActionValue::Scalar(dx)));
    assert(seq![pair][0] == pair);
    assert(seq![pair].drop_first() =~= Seq::<(Path, Path)>::empty());
    assert(spec_sat_add(0, dx as int) == dx as int);
    assert(spec_float_state(s, dx as int, Seq::<(Path, Path)>::empty()) == dx as int);
}

impl Instance {
    /// Obtains the capability token for the one supported desktop system.
    pub fn create_system(&self) -> (r: Result<System, Error>)
        ensures
            r is Ok,
    {
        Ok(System)
    }

    /// Creates the session: registers the mouse and keyboard devices under
    /// their user paths and activates the desktop profile.  The platform
    /// side of session creation (window and raw-input registration) lives
    /// with the collaborator that drains events.
    pub fn create_session(&mut self, _system: &System) -> (r: Result<Session, Error>)
        requires
            old(self).wf(),
        ensures
            final(self).wf(),
            final(self).profiles == old(self).profiles,
            model_extends(final(self).interner@, old(self).interner@),
            r is Ok,
            ({
                let s = r->Ok_0;
                let m0 = old(self).interner@;
                let m1 = spec_intern(m0, "/user/mouse"@);
                let m2 = spec_intern(m1, "/user/keyboard"@);
                let m3 = spec_intern(m2, "left/click"@);
                let m4 = spec_intern(m3, "delta_x/scalar"@);
                &&& final(self).interner@ == spec_intern(m4, "delta_y/scalar"@)
                &&& s.wf()
                &&& s.user_paths.mouse.0 == spec_path_of(m0, "/user/mouse"@)
                &&& s.user_paths.keyboard.0 == spec_path_of(m1, "/user/keyboard"@)
                &&& s.active_profile == old(self).profiles.desktop
                &&& s.mouse.state == DeviceState::Mouse(Mouse { delta_x: 0i64, delta_y: 0i64 })
                &&& s.keyboard.state == DeviceState::Keyboard
                &&& s.keyboard.mappings@.len() == 0
                &&& s.mouse.mappings@ =~= seq![
                    (Path(spec_path_of(m2, "left/click"@) as u64), MappingKind::ButtonClick),
                    (Path(spec_path_of(m3, "delta_x/scalar"@) as u64), MappingKind::DeltaX),
                    (Path(spec_path_of(m4, "delta_y/scalar"@) as u64), MappingKind::DeltaY),
                ]
            }),
    {
        let mouse_path = self.interner.intern("/user/mouse");
        let keyboard_path = self.interner.intern("/user/keyboard");
        proof {
            crate::intern::lemma_intern_result(old(self).interner@, "/user/mouse"@);
            crate::intern::lemma_intern_result(
                spec_intern(old(self).interner@, "/user/mouse"@),
                "/user/keyboard"@,
            );
            reveal_strlit("/user/mouse");
            reveal_strlit("/user/keyboard");
            assert("/user/mouse"@.len() == 11);
            assert("/user/keyboard"@.len() == 14);
            crate::intern::lemma_path_stable(
                self.interner@,
                spec_intern(old(self).interner@, "/user/mouse"@),
                "/user/mouse"@,
            );
            crate::intern::lemma_path_of_injective(
                self.interner@,
                "/user/mouse"@,
                "/user/keyboard"@,
            );
        }
        let keyboard = Device::new_keyboard();
        let mouse = Device::new_mouse(&mut self.interner);
        Ok(
            Session {
                user_paths: UserPaths { mouse: mouse_path, keyboard: keyboard_path },
                mouse,
                keyboard,
                active_profile: self.profiles.desktop,
            },
        )
    }
}

impl Session {
    /// The session's fixed topology: pointer state behind the mouse user
    /// path, an empty keyboard, and distinct registry keys.
    pub open spec fn wf(&self) -> bool {
        &&& self.mouse.state is Mouse
        &&& self.keyboard.state == DeviceState::Keyboard
        &&& self.keyboard.mappings@.len() == 0
        &&& self.user_paths.mouse != self.user_paths.keyboard
    }

    /// Declares which sets are live for this session.  Acceptance is
    /// currently unconditional and records nothing: queries are not yet
    /// restricted to attached sets.
    pub fn attach_action_sets(&mut self, _sets: &[ActionSet])
        ensures
            *final(self) == *old(self),
    {
    }

    /// Runs one synchronization tick: transient device accumulators are
    /// reset, then the queued events are drained front first into device
    /// state.  Key events are accepted without effect and unknown device
    /// classes are ignored; the tick never blocks for further events.
    pub fn sync_actions(&mut self, _sets: &[ActionSet], events: &[Event])
        requires
            old(self).wf(),
        ensures
            final(self).wf(),
            final(self).user_paths == old(self).user_paths,
            final(self).active_profile == old(self).active_profile,
            final(self).mouse.mappings == old(self).mouse.mappings,
            final(self).keyboard == old(self).keyboard,
            final(self).mouse.state == DeviceState::Mouse(
                spec_drain(Mouse { delta_x: 0i64, delta_y: 0i64 }, events@),
            ),
    {
        self.mouse.reset();
        self.keyboard.reset();
        let n = events.len();
        let mut i: usize = 0;
        proof {
            assert(events@.skip(0) =~= events@);
        }
        while i < n
            invariant
                n == events@.len(),
                i <= n,
                self.wf(),
                self.user_paths == old(self).user_paths,
                self.active_profile == old(self).active_profile,
                self.mouse.mappings == old(self).mouse.mappings,
                self.keyboard == old(self).keyboard,
                spec_drain(spec_mouse_of(self.mouse.state), events@.skip(i as int)) == spec_drain(
                    Mouse { delta_x: 0i64, delta_y: 0i64 },
                    events@,
                ),
            decreases n - i,
        {
            let e = events[i];
            let ghost m_before = spec_mouse_of(self.mouse.state);
            proof {
                assert(events@.skip(i as int)[0] == events@[i as int]);
                assert(events@.skip(i as int).drop_first() =~= events@.skip(i as int + 1));
            }
            match e {
                Event::MouseMotion { dx, dy } => {
                    self.mouse.apply_motion(dx, dy);
                }
                Event::Key { .. } => {},
                Event::Unknown => {},
            }
            proof {
                assert(spec_mouse_of(self.mouse.state) == spec_apply_event(m_before, e));
            }
            i = i + 1;
        }
        proof {
            assert(events@.skip(n as int) =~= Seq::<Event>::empty());
        }
    }

    /// Computes a scalar snapshot of `action`: the saturating sum of the
    /// scalar contributions of its sources bound for the active profile,
    /// read off the current device state.  An action with no bound
    /// sources, or whose sources are unmapped, reports zero, never an
    /// error; a non-scalar action is a type mismatch.  Per-subpath slots
    /// record declared shape only, so the subpath does not narrow the
    /// query.
    pub fn get_action_state_float(&self, set: &ActionSet, action: Handle, _subpath: Path) -> (r:
        Result<ActionStateFloat, Error>)
        requires
            self.wf(),
            action.idx < set.actions@.len(),
        ensures
            ({
                let a = set.actions@[action.idx as int];
                match r {
                    Ok(st) => a.ty == ActionType::FloatInput && st.current_state as int
                        == spec_float_state(
                        *self,
                        0,
                        spec_sources(a.sources@, self.active_profile),
                    ),
                    Err(e) => e == Error::TypeMismatch && a.ty != ActionType::FloatInput,
                }
            }),
    {
        let a = &set.actions[action.idx];
        match a.ty {
            ActionType::FloatInput => {}
            _ => {
                return Err(Error::TypeMismatch);
            }
        }
        let mut state = ActionStateFloat::new();
        match a.sources_for(self.active_profile) {
            None => Ok(state),
            Some(srcs) => {
                let n = srcs.len();
                let mut j: usize = 0;
                proof {
                    assert(srcs@.skip(0) =~= srcs@);
                }
                while j < n
                    invariant
                        self.wf(),
                        n == srcs@.len(),
                        j <= n,
                        spec_float_state(*self, state.current_state as int, srcs@.skip(j as int))
                            == spec_float_state(*self, 0, srcs@),
                    decreases n - j,
                {
                    let pair = srcs[j];
                    proof {
                        assert(srcs@.skip(j as int)[0] == srcs@[j as int]);
                        assert(srcs@.skip(j as int).drop_first() =~= srcs@.skip(j as int + 1));
                    }
                    if pair.0 == self.user_paths.mouse {
                        match self.mouse.mapping_at(pair.1) {
                            Some(kind) => {
                                let v = Device::eval_mapping(kind, &self.mouse.state);
                                proof {
                                    assert(spec_value_at(*self, pair) == Some(v));
                                }
                                state.apply_value(v);
                            }
                            None => {}
                        }
                    } else if pair.0 == self.user_paths.keyboard {
                        match self.keyboard.mapping_at(pair.1) {
                            Some(_) => {
                                proof {
                                    assert(false);
                                }
                            }
                            None => {}
                        }
                    }
                    j = j + 1;
                }
                Ok(state)
            }
        }
    }

    /// Computes a boolean snapshot of `action`: the logical or of the
    /// boolean contributions of its sources bound for the active profile,
    /// read off the current device state.  An action with no bound
    /// sources, or whose sources are unmapped, reports false, never an
    /// error; a non-boolean action is a type mismatch.  Per-subpath slots
    /// record declared shape only, so the subpath does not narrow the
    /// query.
    pub fn get_action_state_boolean(&self, set: &ActionSet, action: Handle, _subpath: Path) -> (r:
        Result<ActionStateBoolean, Error>)
        requires
            self.wf(),
            action.idx < set.actions@.len(),
        ensures
            ({
                let a = set.actions@[action.idx as int];
                match r {
                    Ok(st) => a.ty == ActionType::BooleanInput && st.current_state
                        == spec_bool_state(
                        *self,
                        false,
                        spec_sources(a.sources@, self.active_profile),
                    ),
                    Err(e) => e == Error::TypeMismatch && a.ty != ActionType::BooleanInput,
                }
            }),
    {
        let a = &set.actions[action.idx];
        match a.ty {
            ActionType::BooleanInput => {}
            _ => {
                return Err(Error::TypeMismatch);
            }
        }
        let mut state = ActionStateBoolean::new();
        match a.sources_for(self.active_profile) {
            None => Ok(state),
            Some(srcs) => {
                let n = srcs.len();
                let mut j: usize = 0;
                proof {
                    assert(srcs@.skip(0) =~= srcs@);
                }
                while j < n
                    invariant
                        self.wf(),
                        n == srcs@.len(),
                        j <= n,
                        spec_bool_state(*self, state.current_state, srcs@.skip(j as int))
                            == spec_bool_state(*self, false, srcs@),
                    decreases n - j,
                {
                    let pair = srcs[j];
                    proof {
                        assert(srcs@.skip(j as int)[0] == srcs@[j as int]);
                        assert(srcs@.skip(j as int).drop_first() =~= srcs@.skip(j as int + 1));
                    }
                    if pair.0 == self.user_paths.mouse {
                        match self.mouse.mapping_at(pair.1) {
                            Some(kind) => {
                                let v = Device::eval_mapping(kind, &self.mouse.state);
                                proof {
                                    assert(spec_value_at(*self, pair) == Some(v));
                                }
                                state.apply_value(v);
                            }
                            None => {}
                        }
                    } else if pair.0 == self.user_paths.keyboard {
                        match self.keyboard.mapping_at(pair.1) {
                            Some(_) => {
                                proof {
                                    assert(false);
                                }
                            }
                            None => {}
                        }
                    }
                    j = j + 1;
                }
                Ok(state)
            }
        }
    }
}

} // verus!
