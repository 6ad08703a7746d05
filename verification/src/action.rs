//! Logical actions, action sets, and binding resolution.
//!
//! An action declares a value type and owns, per interaction profile, the
//! ordered list of (user path, input path) source bindings that feed it.
//! The resolver accepts application-suggested (profile, action, source
//! path) triples, decomposes each source path at the canonical `/input/`
//! separator on the resolved strings, and records the halves against the
//! action.

use crate::device::ActionValue;
use crate::device::spec_sat_add;
use crate::device::sat_add;
use crate::error::Error;
use crate::handle::Handle;
use crate::instance::Instance;
use crate::intern::Path;
use crate::intern::has_separator;
use crate::intern::input_part;
use crate::intern::user_part;
use crate::intern::spec_intern;
use crate::intern::spec_path_of;
use vstd::prelude::*;

verus! {

/// The declared value type of an action.
#[derive(Copy, Clone, PartialEq, Eq, Debug, Structural)]
pub enum ActionType {
    BooleanInput,
    FloatInput,
    Vec2Input,
    /// Declared but output-only: a vibration action owns no readable
    /// state, and no output behaviour is implemented.
    VibrationOutput,
}

/// A current typed action value.  Scalar axes carry raw signed hardware
/// counts; the platform layer outside this crate owns any conversion to a
/// floating-point unit.
#[derive(Copy, Clone, PartialEq, Eq, Debug, Structural)]
pub enum ActionState {
    Boolean { current_state: bool },
    Float(i64),
    Vec2 { x: i64, y: i64 },
}

/// The zero value of a readable action type.
pub open spec fn spec_zero_state(ty: ActionType) -> ActionState {
    match ty {
        ActionType::BooleanInput => ActionState::Boolean { current_state: false },
        ActionType::FloatInput => ActionState::Float(0i64),
        ActionType::Vec2Input => ActionState::Vec2 { x: 0i64, y: 0i64 },
        ActionType::VibrationOutput => arbitrary(),
    }
}

impl ActionState {
    /// The zero value of a readable action type.  Vibration actions own no
    /// readable state, so none exists for them.
    pub fn new(ty: ActionType) -> (s: ActionState)
        requires
            ty != ActionType::VibrationOutput,
        ensures
            s == spec_zero_state(ty),
    {
        match ty {
            ActionType::BooleanInput => ActionState::Boolean { current_state: false },
            ActionType::FloatInput => ActionState::Float(0),
            ActionType::Vec2Input => ActionState::Vec2 { x: 0, y: 0 },
            ActionType::VibrationOutput => {
                proof {
                    assert(false);
                }
                ActionState::Boolean { current_state: false }
            }
        }
    }
}

/// A queried boolean action state.
#[derive(Copy, Clone, PartialEq, Eq, Debug, Structural)]
pub struct ActionStateBoolean {
    pub current_state: bool,
}

impl ActionStateBoolean {
    pub(crate) fn new() -> (s: ActionStateBoolean)
        ensures
            s.current_state == false,
    {
        ActionStateBoolean { current_state: false }
    }

    /// Folds one source value in.  Boolean sources combine by logical or,
    /// so any active source sets the action; a value of another shape
    /// contributes nothing.
    pub(crate) fn apply_value(&mut self, value: ActionValue)
        ensures
            final(self).current_state == match value {
                ActionValue::Boolean(v) => old(self).current_state || v,
                ActionValue::Scalar(_) => old(self).current_state,
            },
    {
        match value {
            ActionValue::Boolean(v) => {
                self.current_state = self.current_state || v;
            }
            ActionValue::Scalar(_) => {}
        }
    }
}

/// A queried scalar action state, in raw hardware counts.
#[derive(Copy, Clone, PartialEq, Eq, Debug, Structural)]
pub struct ActionStateFloat {
    pub current_state: i64,
}

impl ActionStateFloat {
    pub(crate) fn new() -> (s: ActionStateFloat)
        ensures
            s.current_state == 0i64,
    {
        ActionStateFloat { current_state: 0 }
    }

    /// Folds one source value in.  Scalar sources accumulate additively
    /// (saturating), so several physical sources sum into one logical
    /// value; a value of another shape contributes nothing.
    pub(crate) fn apply_value(&mut self, value: ActionValue)
        ensures
            final(self).current_state as int == match value {
                ActionValue::Scalar(d) => spec_sat_add(
                    old(self).current_state as int,
                    d as int,
                ),
                ActionValue::Boolean(_) => old(self).current_state as int,
            },
    {
        match value {
            ActionValue::Scalar(d) => {
                self.current_state = sat_add(self.current_state, d);
            }
            ActionValue::Boolean(_) => {}
        }
    }
}

/// The source list recorded for `profile`: the list of the first entry
/// keyed by it, or the empty list where none is.
pub open spec fn spec_sources(
    entries: Seq<(Path, Vec<(Path, Path)>)>,
    profile: Path,
) -> Seq<(Path, Path)>
    decreases entries.len(),
{
    if entries.len() == 0 {
        Seq::empty()
    } else if entries[0].0 == profile {
        entries[0].1@
    } else {
        spec_sources(entries.drop_first(), profile)
    }
}

/// Source lists look only at entries keyed by their profile.
proof fn lemma_sources_agree(
    e1: Seq<(Path, Vec<(Path, Path)>)>,
    e2: Seq<(Path, Vec<(Path, Path)>)>,
    p: Path,
)
    requires
        e1.len() == e2.len(),
        forall|j: int| 0 <= j < e1.len() ==> (#[trigger] e1[j]).0 == e2[j].0,
        forall|j: int| 0 <= j < e1.len() && (#[trigger] e1[j]).0 == p ==> e1[j].1 == e2[j].1,
    ensures
        spec_sources(e1, p) == spec_sources(e2, p),
    decreases e1.len(),
{
    if e1.len() > 0 {
        assert(e1[0].0 == e2[0].0);
        if e1[0].0 != p {
            assert forall|j: int| 0 <= j < e1.drop_first().len() implies (#[trigger] e1.drop_first()[j]).0
                == e2.drop_first()[j].0 by {
                assert(e1.drop_first()[j] == e1[j + 1]);
                assert(e2.drop_first()[j] == e2[j + 1]);
            }
            assert forall|j: int|
                0 <= j < e1.drop_first().len() && (#[trigger] e1.drop_first()[j]).0
                    == p implies e1.drop_first()[j].1 == e2.drop_first()[j].1 by {
                assert(e1.drop_first()[j] == e1[j + 1]);
                assert(e2.drop_first()[j] == e2[j + 1]);
            }
            lemma_sources_agree(e1.drop_first(), e2.drop_first(), p);
        }
    }
}

/// Replacing the list of the first entry keyed by `p` replaces the
/// recorded source list.
proof fn lemma_sources_update(
    entries: Seq<(Path, Vec<(Path, Path)>)>,
    k: int,
    nv: Vec<(Path, Path)>,
    p: Path,
)
    requires
        0 <= k < entries.len(),
        entries[k].0 == p,
        forall|j: int| 0 <= j < k ==> (#[trigger] entries[j]).0 != p,
    ensures
        spec_sources(entries, p) == entries[k].1@,
        spec_sources(entries.update(k, (p, nv)), p) == nv@,
    decreases k,
{
    let e2 = entries.update(k, (p, nv));
    if k == 0 {
        assert(e2[0].0 == p);
    } else {
        assert(entries[0].0 != p);
        assert(e2[0] == entries[0]);
        assert(entries.drop_first()[k - 1] == entries[k]);
        assert forall|j: int| 0 <= j < k - 1 implies (#[trigger] entries.drop_first()[j]).0 != p by {
            assert(entries.drop_first()[j] == entries[j + 1]);
        }
        lemma_sources_update(entries.drop_first(), k - 1, nv, p);
        assert(e2.drop_first() =~= entries.drop_first().update(k - 1, (p, nv)));
    }
}

/// With no entry keyed by `p`, the recorded list is empty, and appending a
/// fresh entry keyed by `p` installs its list.
proof fn lemma_sources_no_match(entries: Seq<(Path, Vec<(Path, Path)>)>, p: Path)
    requires
        forall|j: int| 0 <= j < entries.len() ==> (#[trigger] entries[j]).0 != p,
    ensures
        spec_sources(entries, p) == Seq::<(Path, Path)>::empty(),
    decreases entries.len(),
{
    if entries.len() > 0 {
        assert forall|j: int| 0 <= j < entries.drop_first().len() implies (#[trigger] entries.drop_first()[j]).0
            != p by {
            assert(entries.drop_first()[j] == entries[j + 1]);
        }
        lemma_sources_no_match(entries.drop_first(), p);
    }
}

/// Appending an entry leaves every earlier profile's list alone, and
/// serves profile `e.0` only where no earlier entry matched it.
proof fn lemma_sources_push(
    entries: Seq<(Path, Vec<(Path, Path)>)>,
    e: (Path, Vec<(Path, Path)>),
    p: Path,
)
    ensures
        p != e.0 ==> spec_sources(entries.push(e), p) == spec_sources(entries, p),
        (p == e.0 && forall|j: int| 0 <= j < entries.len() ==> (#[trigger] entries[j]).0 != p)
            ==> spec_sources(entries.push(e), p) == e.1@,
    decreases entries.len(),
{
    if entries.len() == 0 {
        assert(entries.push(e)[0] == e);
        assert(entries.push(e).len() == 1);
        assert(entries.push(e).drop_first() =~= Seq::<(Path, Vec<(Path, Path)>)>::empty());
        if p != e.0 {
            assert(spec_sources(entries.push(e), p) == spec_sources(
                Seq::<(Path, Vec<(Path, Path)>)>::empty(),
                p,
            ));
            assert(spec_sources(entries.push(e), p) == Seq::<(Path, Path)>::empty());
        }
    } else {
        assert(entries.push(e)[0] == entries[0]);
        assert(entries.push(e).drop_first() =~= entries.drop_first().push(e));
        lemma_sources_push(entries.drop_first(), e, p);
        if p != e.0 && entries[0].0 != p {
            assert(spec_sources(entries.push(e), p) == spec_sources(
                entries.drop_first().push(e),
                p,
            ));
            assert(spec_sources(entries, p) == spec_sources(entries.drop_first(), p));
        }
        if p == e.0 && (forall|j: int| 0 <= j < entries.len() ==> (#[trigger] entries[j]).0 != p) {
            assert forall|j: int| 0 <= j < entries.drop_first().len() implies (
            #[trigger] entries.drop_first()[j]).0 != p by {
                assert(entries.drop_first()[j] == entries[j + 1]);
            }
        }
    }
}

/// A logical action: its declared type, its per-subpath state table, and
/// its per-profile source bindings.
pub struct Action {
    pub name: String,
    pub ty: ActionType,
    /// One state slot per declared subpath (the null path when none were
    /// declared); empty for output-only actions.
    pub values: Vec<(Path, ActionState)>,
    /// Per interaction profile, the ordered, append-only list of
    /// (user path, input path) bindings that feed this action.
    pub sources: Vec<(Path, Vec<(Path, Path)>)>,
}

impl Action {
    /// Appends one decomposed source binding for `profile`, creating the
    /// profile's list at first use.  Lists are append-only: a repeated
    /// suggestion duplicates the pair rather than deduplicating it.
    pub(crate) fn push_source(&mut self, profile: Path, user: Path, input: Path)
        ensures
            final(self).name == old(self).name,
            final(self).ty == old(self).ty,
            final(self).values == old(self).values,
            spec_sources(final(self).sources@, profile) =~= spec_sources(
                old(self).sources@,
                profile,
            ).push((user, input)),
            forall|q: Path|
                q != profile ==> spec_sources(final(self).sources@, q) == spec_sources(
                    old(self).sources@,
                    q,
                ),
    {
        let n = self.sources.len();
        let mut k: usize = 0;
        while k < n
            invariant
                *self == *old(self),
                n == self.sources@.len(),
                k <= n,
                forall|j: int| 0 <= j < k ==> (#[trigger] self.sources@[j]).0 != profile,
            decreases n - k,
        {
            if self.sources[k].0 == profile {
                let ghost entries0 = self.sources@;
                let entry = self.sources.remove(k);
                let (key, mut list) = entry;
                list.push((user, input));
                let ghost nlist = list;
                self.sources.insert(k, (key, list));
                proof {
                    assert(self.sources@ =~= entries0.update(k as int, (profile, nlist)));
                    lemma_sources_update(entries0, k as int, nlist, profile);
                    assert forall|q: Path| q != profile implies spec_sources(self.sources@, q)
                        == spec_sources(entries0, q) by {
                        assert forall|j: int| 0 <= j < entries0.len() implies (#[trigger] entries0[j]).0
                            == self.sources@[j].0 by {}
                        lemma_sources_agree(entries0, self.sources@, q);
                    }
                }
                return;
            }
            k = k + 1;
        }
        let ghost entries0 = self.sources@;
        let mut list: Vec<(Path, Path)> = Vec::new();
        list.push((user, input));
        let ghost nlist = list;
        self.sources.push((profile, list));
        proof {
            lemma_sources_no_match(entries0, profile);
            lemma_sources_push(entries0, (profile, nlist), profile);
            assert(spec_sources(self.sources@, profile) =~= Seq::<(Path, Path)>::empty().push(
                (user, input),
            ));
            assert forall|q: Path| q != profile implies spec_sources(self.sources@, q)
                == spec_sources(entries0, q) by {
                lemma_sources_push(entries0, (profile, nlist), q);
            }
        }
    }
}

impl Action {
    /// The source list recorded for `profile`, where an entry exists.
    pub fn sources_for(&self, profile: Path) -> (r: Option<&Vec<(Path, Path)>>)
        ensures
            match r {
                Some(v) => v@ == spec_sources(self.sources@, profile),
                None => spec_sources(self.sources@, profile) =~= Seq::<(Path, Path)>::empty(),
            },
    {
        let n = self.sources.len();
        let mut k: usize = 0;
        proof {
            assert(self.sources@.skip(0) =~= self.sources@);
        }
        while k < n
            invariant
                n == self.sources@.len(),
                k <= n,
                spec_sources(self.sources@, profile) == spec_sources(
                    self.sources@.skip(k as int),
                    profile,
                ),
            decreases n - k,
        {
            proof {
                assert(self.sources@.skip(k as int)[0] == self.sources@[k as int]);
                assert(self.sources@.skip(k as int).drop_first() =~= self.sources@.skip(
                    k as int + 1,
                ));
            }
            if self.sources[k].0 == profile {
                return Some(&self.sources[k].1);
            }
            k = k + 1;
        }
        proof {
            assert(self.sources@.skip(n as int) =~= Seq::<(Path, Vec<(Path, Path)>)>::empty());
        }
        None
    }
}

/// The per-subpath state table a fresh action owns: one zeroed slot per
/// declared subpath, or a single slot at the null path when none were
/// declared.
pub open spec fn spec_value_table(subpaths: Seq<Path>, ty: ActionType) -> Seq<(Path, ActionState)> {
    if subpaths.len() == 0 {
        seq![(Path(0u64), spec_zero_state(ty))]
    } else {
        subpaths.map_values(|p: Path| (p, spec_zero_state(ty)))
    }
}

/// A named, owned collection of actions.  The set's arena owns every
/// action it creates; handles index into it.
pub struct ActionSet {
    pub name: String,
    pub actions: Vec<Action>,
}

impl ActionSet {
    /// Creates an action of the declared type, with one zeroed state slot
    /// per subpath, and hands back its handle.  Creation always succeeds.
    pub fn create_action(&mut self, name: &str, ty: ActionType, subpaths: &[Path]) -> (r: Result<
        Handle,
        Error,
    >)
        ensures
            r is Ok,
            final(self).name == old(self).name,
            final(self).actions@.len() == old(self).actions@.len() + 1,
            forall|i: int|
                0 <= i < old(self).actions@.len() ==> final(self).actions@[i] == old(
                    self,
                ).actions@[i],
            ({
                let a = final(self).actions@.last();
                &&& r->Ok_0.idx == old(self).actions@.len()
                &&& a.name@ == name@
                &&& a.ty == ty
                &&& a.sources@.len() == 0
                &&& (ty == ActionType::VibrationOutput ==> a.values@.len() == 0)
                &&& (ty != ActionType::VibrationOutput ==> a.values@ =~= spec_value_table(
                    subpaths@,
                    ty,
                ))
            }),
    {
        let mut values: Vec<(Path, ActionState)> = Vec::new();
        if ty != ActionType::VibrationOutput {
            if subpaths.len() == 0 {
                values.push((Path(0), ActionState::new(ty)));
            } else {
                let n = subpaths.len();
                let mut i: usize = 0;
                while i < n
                    invariant
                        ty != ActionType::VibrationOutput,
                        n == subpaths@.len(),
                        0 < n,
                        i <= n,
                        values@ =~= subpaths@.take(i as int).map_values(
                            |p: Path| (p, spec_zero_state(ty)),
                        ),
                    decreases n - i,
                {
                    values.push((subpaths[i], ActionState::new(ty)));
                    proof {
                        assert(subpaths@.take(i as int + 1) =~= subpaths@.take(i as int).push(
                            subpaths@[i as int],
                        ));
                        assert(values@ =~= subpaths@.take(i as int + 1).map_values(
                            |p: Path| (p, spec_zero_state(ty)),
                        ));
                    }
                    i = i + 1;
                }
                proof {
                    assert(subpaths@.take(n as int) =~= subpaths@);
                }
            }
        }
        let handle = Handle { idx: self.actions.len() };
        self.actions.push(Action { name: name.to_owned(), ty, values, sources: Vec::new() });
        Ok(handle)
    }
}

/// One application-suggested binding: the action to feed and the source
/// path naming the physical input.
#[derive(Copy, Clone, PartialEq, Eq, Debug, Structural)]
pub struct ActionSuggestedBinding {
    pub action: Handle,
    pub binding: Path,
}

/// The string a binding's source path resolves to, in interner model `m`.
pub open spec fn spec_binding_str(m: Seq<Seq<char>>, b: ActionSuggestedBinding) -> Seq<char> {
    m[b.binding.0 as int - 1]
}

/// A binding is admissible when its source path was interned and its
/// string splits at the canonical separator.
pub open spec fn spec_binding_ok(m: Seq<Seq<char>>, b: ActionSuggestedBinding) -> bool {
    &&& 1 <= b.binding.0 <= m.len()
    &&& has_separator(spec_binding_str(m, b))
}

/// The interner model after decomposing each binding's source path (as
/// resolved in the starting model `m0`) and interning both halves, front
/// binding first.
pub open spec fn spec_interner_after(
    m0: Seq<Seq<char>>,
    m: Seq<Seq<char>>,
    bs: Seq<ActionSuggestedBinding>,
) -> Seq<Seq<char>>
    decreases bs.len(),
{
    if bs.len() == 0 {
        m
    } else {
        let s = spec_binding_str(m0, bs[0]);
        spec_interner_after(
            m0,
            spec_intern(spec_intern(m, user_part(s)), input_part(s)),
            bs.drop_first(),
        )
    }
}

/// The (user path, input path) pair recorded for a binding, with both
/// halves numbered in the final model `mf`.
pub open spec fn spec_pair_of(
    mf: Seq<Seq<char>>,
    m0: Seq<Seq<char>>,
    b: ActionSuggestedBinding,
) -> (Path, Path) {
    let s = spec_binding_str(m0, b);
    (
        Path(spec_path_of(mf, user_part(s)) as u64),
        Path(spec_path_of(mf, input_part(s)) as u64),
    )
}

/// The pairs appended to the action at arena index `idx`, in binding
/// order.
pub open spec fn spec_new_pairs(
    mf: Seq<Seq<char>>,
    m0: Seq<Seq<char>>,
    bs: Seq<ActionSuggestedBinding>,
    idx: int,
) -> Seq<(Path, Path)>
    decreases bs.len(),
{
    if bs.len() == 0 {
        Seq::empty()
    } else {
        let rest = spec_new_pairs(mf, m0, bs.drop_first(), idx);
        if bs[0].action.idx == idx {
            seq![spec_pair_of(mf, m0, bs[0])] + rest
        } else {
            rest
        }
    }
}

/// Resolving bindings only ever extends the interner, keeping it
/// well-formed.
proof fn lemma_interner_after_extends(
    m0: Seq<Seq<char>>,
    m: Seq<Seq<char>>,
    bs: Seq<ActionSuggestedBinding>,
)
    requires
        crate::intern::wf_model(m),
    ensures
        crate::intern::wf_model(spec_interner_after(m0, m, bs)),
        crate::intern::model_extends(spec_interner_after(m0, m, bs), m),
    decreases bs.len(),
{
    if bs.len() > 0 {
        let s = spec_binding_str(m0, bs[0]);
        let m1 = spec_intern(m, user_part(s));
        let m2 = spec_intern(m1, input_part(s));
        crate::intern::lemma_intern_result(m, user_part(s));
        crate::intern::lemma_intern_result(m1, input_part(s));
        lemma_interner_after_extends(m0, m2, bs.drop_first());
        crate::intern::lemma_extends_trans(spec_interner_after(m0, m2, bs.drop_first()), m2, m1);
        crate::intern::lemma_extends_trans(spec_interner_after(m0, m2, bs.drop_first()), m1, m);
    }
}

/// Appending one binding appends its pair to exactly its action's list.
proof fn lemma_new_pairs_snoc(
    mf: Seq<Seq<char>>,
    m0: Seq<Seq<char>>,
    bs: Seq<ActionSuggestedBinding>,
    b: ActionSuggestedBinding,
    idx: int,
)
    ensures
        spec_new_pairs(mf, m0, bs.push(b), idx) =~= spec_new_pairs(mf, m0, bs, idx) + (
        if b.action.idx == idx {
            seq![spec_pair_of(mf, m0, b)]
        } else {
            Seq::<(Path, Path)>::empty()
        }),
    decreases bs.len(),
{
    let tail = if b.action.idx == idx {
        seq![spec_pair_of(mf, m0, b)]
    } else {
        Seq::<(Path, Path)>::empty()
    };
    if bs.len() == 0 {
        assert(bs.push(b)[0] == b);
        assert(bs.push(b).drop_first() =~= Seq::<ActionSuggestedBinding>::empty());
        assert(spec_new_pairs(mf, m0, Seq::<ActionSuggestedBinding>::empty(), idx) =~= Seq::<
            (Path, Path),
        >::empty());
    } else {
        assert(bs.push(b)[0] == bs[0]);
        assert(bs.push(b).drop_first() =~= bs.drop_first().push(b));
        lemma_new_pairs_snoc(mf, m0, bs.drop_first(), b, idx);
    }
}

impl Instance {
    /// Creates an empty, named action set.  Creation always succeeds.
    pub fn create_action_set(&self, name: &str) -> (r: Result<ActionSet, Error>)
        ensures
            r is Ok,
            r->Ok_0.name@ == name@,
            r->Ok_0.actions@.len() == 0,
    {
        Ok(ActionSet { name: name.to_owned(), actions: Vec::new() })
    }

    /// Records application-suggested bindings against the actions of
    /// `set`.
    ///
    /// Bindings suggested against any profile other than the recognized
    /// desktop profile are silently discarded: the whole call is a no-op.
    /// Otherwise each source path is resolved to its string, decomposed at
    /// the first `/input/` separator into a (user path, input path) pair
    /// of freshly interned halves, and the pair is appended to the
    /// action's source list for the profile, in binding order.
    ///
    /// Every suggested binding against the desktop profile must name an
    /// action of `set` and carry an interned source path whose string
    /// holds the separator; anything else is a caller contract violation,
    /// excluded by precondition.
    pub fn suggest_interaction_profile_bindings(
        &mut self,
        interaction_profile: Path,
        set: &mut ActionSet,
        bindings: &[ActionSuggestedBinding],
    )
        requires
            old(self).wf(),
            interaction_profile == old(self).profiles.desktop ==> forall|k: int|
                0 <= k < bindings@.len() ==> (#[trigger] bindings@[k]).action.idx < old(
                    set,
                ).actions@.len() && spec_binding_ok(old(self).interner@, bindings@[k]),
        ensures
            final(self).wf(),
            final(self).profiles == old(self).profiles,
            interaction_profile != old(self).profiles.desktop ==> *final(self) == *old(self)
                && *final(set) == *old(set),
            interaction_profile == old(self).profiles.desktop ==> ({
                let m0 = old(self).interner@;
                let mf = final(self).interner@;
                &&& mf == spec_interner_after(m0, m0, bindings@)
                &&& crate::intern::model_extends(mf, m0)
                &&& final(set).name == old(set).name
                &&& final(set).actions@.len() == old(set).actions@.len()
                &&& forall|ai: int|
                    0 <= ai < old(set).actions@.len() ==> ({
                        let a0 = (#[trigger] old(set).actions@[ai]);
                        let a1 = final(set).actions@[ai];
                        &&& a1.name == a0.name
                        &&& a1.ty == a0.ty
                        &&& a1.values == a0.values
                        &&& spec_sources(a1.sources@, interaction_profile) =~= spec_sources(
                            a0.sources@,
                            interaction_profile,
                        ) + spec_new_pairs(mf, m0, bindings@, ai)
                        &&& forall|q: Path|
                            q != interaction_profile ==> spec_sources(a1.sources@, q)
                                == spec_sources(a0.sources@, q)
                    })
            }),
    {
        if interaction_profile != self.profiles.desktop {
            return;
        }
        let ghost m0 = self.interner@;
        let ghost mf = spec_interner_after(m0, m0, bindings@);
        proof {
            assert(bindings@.skip(0) =~= bindings@);
            assert forall|ai: int| 0 <= ai < old(set).actions@.len() implies spec_sources(
                (#[trigger] old(set).actions@[ai]).sources@,
                interaction_profile,
            ) + spec_new_pairs(mf, m0, bindings@.take(0), ai) =~= spec_sources(
                old(set).actions@[ai].sources@,
                interaction_profile,
            ) by {
                assert(bindings@.take(0) =~= Seq::<ActionSuggestedBinding>::empty());
            }
        }
        let n = bindings.len();
        let mut i: usize = 0;
        while i < n
            invariant
                n == bindings@.len(),
                i <= n,
                self.wf(),
                self.profiles == old(self).profiles,
                interaction_profile == old(self).profiles.desktop,
                m0 == old(self).interner@,
                mf == spec_interner_after(m0, m0, bindings@),
                crate::intern::model_extends(self.interner@, m0),
                spec_interner_after(m0, self.interner@, bindings@.skip(i as int)) == mf,
                forall|k: int|
                    0 <= k < bindings@.len() ==> (#[trigger] bindings@[k]).action.idx < old(
                        set,
                    ).actions@.len() && spec_binding_ok(m0, bindings@[k]),
                set.name == old(set).name,
                set.actions@.len() == old(set).actions@.len(),
                forall|ai: int|
                    0 <= ai < old(set).actions@.len() ==> ({
                        let a0 = (#[trigger] old(set).actions@[ai]);
                        let a1 = set.actions@[ai];
                        &&& a1.name == a0.name
                        &&& a1.ty == a0.ty
                        &&& a1.values == a0.values
                        &&& spec_sources(a1.sources@, interaction_profile) =~= spec_sources(
                            a0.sources@,
                            interaction_profile,
                        ) + spec_new_pairs(mf, m0, bindings@.take(i as int), ai)
                        &&& forall|q: Path|
                            q != interaction_profile ==> spec_sources(a1.sources@, q)
                                == spec_sources(a0.sources@, q)
                    }),
            decreases n - i,
        {
            let b = bindings[i];
            let ghost m_i = self.interner@;
            let ghost s_spec = spec_binding_str(m0, b);
            proof {
                assert(spec_binding_ok(m0, b));
                assert(self.interner@[b.binding.0 as int - 1] == m0[b.binding.0 as int - 1]);
            }
            let s: String = self.interner.untern(b.binding);
            proof {
                assert(s@ == s_spec);
                crate::intern::lemma_scan_sep(s@, 0);
            }
            let j = match crate::intern::find_separator(s.as_str()) {
                Some(j) => j,
                None => {
                    proof {
                        assert(false);
                    }
                    0
                }
            };
            let slen = s.as_str().unicode_len();
            let user_s = s.as_str().substring_char(0, j);
            let input_s = s.as_str().substring_char(j + 7, slen);
            proof {
                assert(user_s@ == user_part(s_spec));
                assert(input_s@ == input_part(s_spec));
            }
            let pu = self.interner.intern(user_s);
            let ghost m_i1 = self.interner@;
            let pi = self.interner.intern(input_s);
            let ghost m_i2 = self.interner@;
            proof {
                // The interner-model invariant steps by one binding.
                assert(bindings@.skip(i as int)[0] == b);
                assert(bindings@.skip(i as int).drop_first() =~= bindings@.skip(i as int + 1));
                assert(m_i1 == spec_intern(m_i, user_part(s_spec)));
                assert(m_i2 == spec_intern(m_i1, input_part(s_spec)));
                assert(spec_interner_after(m0, m_i, bindings@.skip(i as int))
                    == spec_interner_after(m0, m_i2, bindings@.skip(i as int + 1)));
                // The numbers just assigned are stable out to the final model.
                crate::intern::lemma_intern_result(m_i, user_part(s_spec));
                crate::intern::lemma_intern_result(m_i1, input_part(s_spec));
                lemma_interner_after_extends(m0, m_i2, bindings@.skip(i as int + 1));
                crate::intern::lemma_path_stable(mf, m_i2, input_part(s_spec));
                crate::intern::lemma_extends_trans(mf, m_i2, m_i1);
                crate::intern::lemma_path_stable(mf, m_i1, user_part(s_spec));
                assert(spec_path_of(mf, user_part(s_spec)) == pu.0 as int);
                assert(spec_path_of(mf, input_part(s_spec)) == pi.0 as int);
                assert(spec_pair_of(mf, m0, b) == (pu, pi));
            }
            let h = b.action;
            let ghost actions_before = set.actions@;
            let mut a = set.actions.remove(h.idx);
            a.push_source(interaction_profile, pu, pi);
            set.actions.insert(h.idx, a);
            proof {
                assert(set.actions@ =~= actions_before.update(h.idx as int, a));
                assert(bindings@.take(i as int + 1) =~= bindings@.take(i as int).push(b));
                assert forall|ai: int| 0 <= ai < old(set).actions@.len() implies ({
                    let a0 = (#[trigger] old(set).actions@[ai]);
                    let a1 = set.actions@[ai];
                    &&& a1.name == a0.name
                    &&& a1.ty == a0.ty
                    &&& a1.values == a0.values
                    &&& spec_sources(a1.sources@, interaction_profile) =~= spec_sources(
                        a0.sources@,
                        interaction_profile,
                    ) + spec_new_pairs(mf, m0, bindings@.take(i as int + 1), ai)
                    &&& forall|q: Path|
                        q != interaction_profile ==> spec_sources(a1.sources@, q) == spec_sources(
                            a0.sources@,
                            q,
                        )
                }) by {
                    lemma_new_pairs_snoc(mf, m0, bindings@.take(i as int), b, ai);
                    if ai == h.idx as int {
                        assert(set.actions@[ai] == a);
                    } else {
                        assert(set.actions@[ai] == actions_before[ai]);
                    }
                }
            }
            i = i + 1;
        }
        proof {
            assert(bindings@.skip(n as int) =~= Seq::<ActionSuggestedBinding>::empty());
            assert(bindings@.take(n as int) =~= bindings@);
        }
    }
}

} // verus!
