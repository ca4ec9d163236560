//! Sandbox layout planning: the root directory tree, the device node, and
//! the mirrored location of the command binary inside the sandbox.
//!
//! Planning is pure; carrying a plan out (creating directories, copying the
//! binary) is the caller's side of the boundary.
use vstd::prelude::*;

verus! {

/// The sandbox root directory and the plans drawn against it.
pub struct IsolatedFileSystem {
    pub root_dir: String,
}

/// A command path that is not absolute.
#[derive(Debug, Clone, Copy, PartialEq, Eq)]
pub enum SandboxSetupError {
    NotAbsolute,
}

/// Every path the sandbox setup touches: directories to create, the device
/// node to provide, and where the command binary is copied.
pub struct SetupPlan {
    pub root_dir: String,
    pub dev_dir: String,
    pub dev_null: String,
    pub command_parent_dir: String,
    pub command_dest: String,
}

/// The mathematical value of a setup plan.
pub struct SetupPlanModel {
    pub root_dir: Seq<char>,
    pub dev_dir: Seq<char>,
    pub dev_null: Seq<char>,
    pub command_parent_dir: Seq<char>,
    pub command_dest: Seq<char>,
}

impl View for SetupPlan {
    type V = SetupPlanModel;

    open spec fn view(&self) -> SetupPlanModel {
        SetupPlanModel {
            root_dir: self.root_dir@,
            dev_dir: self.dev_dir@,
            dev_null: self.dev_null@,
            command_parent_dir: self.command_parent_dir@,
            command_dest: self.command_dest@,
        }
    }
}

/// Holds when a path is absolute: it starts with the separator.
pub open spec fn is_absolute(p: Seq<char>) -> bool {
    p.len() > 0 && p[0] == '/'
}

/// The characters before the last separator: the parent directory, without
/// a trailing separator. A root-level path has an empty parent.
pub open spec fn parent_of(p: Seq<char>) -> Seq<char>
    decreases p.len(),
{
    if p.len() == 0 {
        Seq::empty()
    } else if p.last() == '/' {
        p.drop_last()
    } else {
        parent_of(p.drop_last())
    }
}

/// The parent is the prefix that ends just before the last separator.
proof fn lemma_parent_at(p: Seq<char>, k: int)
    requires
        0 <= k < p.len(),
        p[k] == '/',
        forall|j: int| k < j < p.len() ==> p[j] != '/',
    ensures
        parent_of(p) == p.subrange(0, k),
    decreases p.len(),
{
    if k == p.len() - 1 {
        assert(p.drop_last() =~= p.subrange(0, k));
    } else {
        lemma_parent_at(p.drop_last(), k);
        assert(p.drop_last().subrange(0, k) =~= p.subrange(0, k));
    }
}

impl IsolatedFileSystem {
    /// A sandbox at its fixed relative location.
    pub fn new() -> (r: IsolatedFileSystem)
        ensures
            r.root_dir@ == "./sandbox"@,
    {
        IsolatedFileSystem { root_dir: "./sandbox".to_owned() }
    }

    /// Plans the sandbox setup for a command binary: the root and `dev`
    /// directories, the host device node, the directories mirroring the
    /// command's parent, and the command's destination inside the sandbox.
    /// A command path that is not absolute is rejected.
    pub fn setup_plan(&self, command: &str) -> (r: Result<SetupPlan, SandboxSetupError>)
        ensures
            match r {
                Ok(plan) => {
                    &&& is_absolute(command@)
                    &&& plan@.root_dir == self.root_dir@
                    &&& plan@.dev_dir == self.root_dir@ + "/dev"@
                    &&& plan@.dev_null == "/dev/null"@
                    &&& plan@.command_parent_dir == self.root_dir@ + parent_of(command@)
                    &&& plan@.command_dest == self.root_dir@ + command@
                },
                Err(e) => !is_absolute(command@) && e == SandboxSetupError::NotAbsolute,
            },
    {
        let len = command.unicode_len();
        if len == 0 || command.get_char(0) != '/' {
            return Err(SandboxSetupError::NotAbsolute);
        }
        let mut last: usize = 0;
        let mut i: usize = 1;
        while i < len
            invariant
                1 <= i <= len,
                len == command@.len(),
                last < i,
                command@[last as int] == '/',
                forall|j: int| last < j < i ==> command@[j] != '/',
            decreases len - i,
        {
            if command.get_char(i) == '/' {
                last = i;
            }
            i += 1;
        }
        proof {
            lemma_parent_at(command@, last as int);
        }
        let parent = command.substring_char(0, last);
        let root_dir = self.root_dir.clone();
        let mut dev_dir = self.root_dir.clone();
        dev_dir.append("/dev");
        let dev_null = "/dev/null".to_owned();
        let mut command_parent_dir = self.root_dir.clone();
        command_parent_dir.append(parent);
        let mut command_dest = self.root_dir.clone();
        command_dest.append(command);
        Ok(SetupPlan { root_dir, dev_dir, dev_null, command_parent_dir, command_dest })
    }
}

/// The directories that exist after the setup's creations are carried out
/// against a filesystem that already holds `dirs`: creating a directory
/// that exists changes nothing.
pub open spec fn dirs_after_setup(dirs: Set<Seq<char>>, plan: SetupPlanModel) -> Set<Seq<char>> {
    dirs.insert(plan.root_dir).insert(plan.dev_dir).insert(plan.command_parent_dir)
}

/// Law: sandbox setup is idempotent on directory creation — running the
/// same plan against a filesystem it already ran against creates nothing
/// new and fails nothing.
pub proof fn lemma_setup_idempotent(dirs: Set<Seq<char>>, plan: SetupPlanModel)
    ensures
        dirs_after_setup(dirs_after_setup(dirs, plan), plan) == dirs_after_setup(dirs, plan),
{
    assert(dirs_after_setup(dirs_after_setup(dirs, plan), plan) =~= dirs_after_setup(dirs, plan));
}

} // verus!
