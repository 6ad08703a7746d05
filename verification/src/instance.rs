//! The process-wide instance: owner of the symbol interner and of the
//! table of recognized interaction profiles.

use crate::error::Error;
use crate::intern::Interner;
use crate::intern::Path;
use crate::intern::model_extends;
use crate::intern::spec_intern;
use crate::intern::spec_path_of;
use vstd::prelude::*;

verus! {

/// The interaction profiles the instance recognizes.  Only the built-in
/// desktop profile exists.
pub struct Profiles {
    pub desktop: Path,
}

/// The process-wide entry point.
pub struct Instance {
    pub interner: Interner,
    pub profiles: Profiles,
}

impl Instance {
    /// The interner is well-formed and the desktop profile path was
    /// produced by it.
    pub open spec fn wf(&self) -> bool {
        &&& self.interner.wf()
        &&& 1 <= self.profiles.desktop.0 <= self.interner@.len()
    }

    /// Creates the instance, interning the desktop profile name as the
    /// first path.
    pub fn create() -> (r: Result<Instance, Error>)
        ensures
            r is Ok,
            r matches Ok(inst) ==> {
                &&& inst.wf()
                &&& inst.interner@ == spec_intern(
                    Seq::<Seq<char>>::empty(),
                    "/interaction_profiles/norse/desktop"@,
                )
                &&& inst.profiles.desktop.0 == spec_path_of(
                    Seq::<Seq<char>>::empty(),
                    "/interaction_profiles/norse/desktop"@,
                )
            },
    {
        let mut interner = Interner::new();
        let desktop = interner.intern("/interaction_profiles/norse/desktop");
        Ok(Instance { interner, profiles: Profiles { desktop } })
    }

    /// Interns `string` and returns its stable path.
    pub fn string_to_path(&mut self, string: &str) -> (p: Path)
        requires
            old(self).wf(),
        ensures
            final(self).wf(),
            final(self).profiles == old(self).profiles,
            final(self).interner@ == spec_intern(old(self).interner@, string@),
            p.0 == spec_path_of(old(self).interner@, string@),
            1 <= p.0 <= final(self).interner@.len(),
            final(self).interner@[p.0 as int - 1] == string@,
            model_extends(final(self).interner@, old(self).interner@),
    {
        self.interner.intern(string)
    }
}

} // verus!
