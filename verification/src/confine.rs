//! Confinement sequencing: the change of apparent filesystem root and the
//! working-directory reset, two irreversible steps in a fixed order.
//!
//! The steps themselves are process-global syscalls made by the caller; this
//! module owns the order. A `Confinement` value hands out the next step and
//! advances only when the caller reports it done, so the root change always
//! precedes the working-directory reset and neither can run twice.
use vstd::prelude::*;

verus! {

/// The step the caller must perform next.
#[derive(Debug, Clone, Copy, PartialEq, Eq)]
pub enum ConfineAction {
    /// Change the process's apparent filesystem root to the sandbox root.
    ChangeRoot,
    /// Reset the working directory to the new root.
    SetWorkdir,
}

/// How far confinement has proceeded.
#[derive(Debug, Clone, Copy, PartialEq, Eq)]
pub enum ConfinePhase {
    /// Nothing has happened; the root change comes first.
    Pending,
    /// The root has changed; the working directory still points nowhere
    /// meaningful and must be reset.
    RootChanged,
    /// Both steps are done; the process is confined for its lifetime.
    Confined,
}

/// The one-way confinement token for a sandbox root.
pub struct Confinement {
    root_dir: String,
    phase: ConfinePhase,
}

impl Confinement {
    /// The sandbox root this token confines to.
    pub closed spec fn root(&self) -> Seq<char> {
        self.root_dir@
    }

    /// The current phase.
    pub closed spec fn phase(&self) -> ConfinePhase {
        self.phase
    }

    /// A fresh token: nothing applied yet.
    pub fn new(root_dir: String) -> (r: Confinement)
        ensures
            r.phase() == ConfinePhase::Pending,
            r.root() == root_dir@,
    {
        Confinement { root_dir, phase: ConfinePhase::Pending }
    }

    /// The next step owed, if any: the root change strictly before the
    /// working-directory reset, and nothing once confined.
    pub fn next_action(&self) -> (r: Option<ConfineAction>)
        ensures
            match self.phase() {
                ConfinePhase::Pending => r == Some(ConfineAction::ChangeRoot),
                ConfinePhase::RootChanged => r == Some(ConfineAction::SetWorkdir),
                ConfinePhase::Confined => r is None,
            },
    {
        match self.phase {
            ConfinePhase::Pending => Some(ConfineAction::ChangeRoot),
            ConfinePhase::RootChanged => Some(ConfineAction::SetWorkdir),
            ConfinePhase::Confined => None,
        }
    }

    /// The path the root change targets.
    pub fn root_dir(&self) -> (r: &String)
        ensures
            r@ == self.root(),
    {
        &self.root_dir
    }

    /// Records that the root change succeeded. Only a pending token may
    /// record it, so the change cannot be applied twice.
    pub fn root_changed(&mut self)
        requires
            old(self).phase() == ConfinePhase::Pending,
        ensures
            final(self).phase() == ConfinePhase::RootChanged,
            final(self).root() == old(self).root(),
    {
        self.phase = ConfinePhase::RootChanged;
    }

    /// Records that the working directory was reset to the new root. Owed
    /// only after the root change.
    pub fn workdir_reset(&mut self)
        requires
            old(self).phase() == ConfinePhase::RootChanged,
        ensures
            final(self).phase() == ConfinePhase::Confined,
            final(self).root() == old(self).root(),
    {
        self.phase = ConfinePhase::Confined;
    }

    /// Whether both steps are done.
    pub fn is_confined(&self) -> (r: bool)
        ensures
            r == (self.phase() == ConfinePhase::Confined),
    {
        match self.phase {
            ConfinePhase::Confined => true,
            _ => false,
        }
    }

    /// Where an absolute host path resolves once this token's root change
    /// has been applied: under the sandbox root.
    pub fn resolved_host_path(&self, p: &str) -> (r: String)
        ensures
            r@ == resolve_after_confinement(self.root(), p@),
    {
        let mut r = self.root_dir.clone();
        r.append(p);
        r
    }
}

/// The host path at which a path named after confinement actually resolves:
/// the sandbox root followed by the path.
pub open spec fn resolve_after_confinement(root: Seq<char>, p: Seq<char>) -> Seq<char> {
    root + p
}

/// Law: confinement is one-way. Any path named after the root change
/// resolves under the sandbox root — it carries the root as a prefix — and
/// never equals the original host path.
pub proof fn lemma_confinement_one_way(root: Seq<char>, p: Seq<char>)
    requires
        root.len() > 0,
    ensures
        resolve_after_confinement(root, p).len() == root.len() + p.len(),
        resolve_after_confinement(root, p).subrange(0, root.len() as int) == root,
        resolve_after_confinement(root, p) != p,
{
    assert(resolve_after_confinement(root, p).subrange(0, root.len() as int) =~= root);
}

} // verus!
