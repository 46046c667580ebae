use vstd::prelude::*;

use crate::text::{chars_of, same_chars};

verus! {

/// The package managers a generated project can be driven by.
#[derive(Debug, Clone, Copy, PartialEq, Eq, Structural)]
pub enum PackageManager {
    Cargo,
    Pnpm,
    Yarn,
    Npm,
    Bun,
}

impl PackageManager {
    /// The identifier under which the manager is displayed and named in flags.
    pub open spec fn spec_id(self) -> Seq<char> {
        match self {
            PackageManager::Cargo => "cargo"@,
            PackageManager::Pnpm => "pnpm"@,
            PackageManager::Yarn => "yarn"@,
            PackageManager::Npm => "npm"@,
            PackageManager::Bun => "bun"@,
        }
    }

    /// The command prefix that runs a script of the project.
    pub open spec fn spec_run_cmd(self) -> Seq<char> {
        match self {
            PackageManager::Cargo => "cargo"@,
            PackageManager::Pnpm => "pnpm"@,
            PackageManager::Yarn => "yarn"@,
            PackageManager::Npm => "npm run"@,
            PackageManager::Bun => "bun run"@,
        }
    }

    /// The managers of the JavaScript ecosystem, in display order.
    pub open spec fn spec_node() -> Seq<PackageManager> {
        seq![PackageManager::Pnpm, PackageManager::Yarn, PackageManager::Npm, PackageManager::Bun]
    }

    pub fn id(&self) -> (r: &'static str)
        ensures
            r@ == self.spec_id(),
    {
        match self {
            PackageManager::Cargo => "cargo",
            PackageManager::Pnpm => "pnpm",
            PackageManager::Yarn => "yarn",
            PackageManager::Npm => "npm",
            PackageManager::Bun => "bun",
        }
    }

    pub fn run_cmd(&self) -> (r: &'static str)
        ensures
            r@ == self.spec_run_cmd(),
    {
        match self {
            PackageManager::Cargo => "cargo",
            PackageManager::Pnpm => "pnpm",
            PackageManager::Yarn => "yarn",
            PackageManager::Npm => "npm run",
            PackageManager::Bun => "bun run",
        }
    }

    /// The manager whose identifier is exactly `s`.
    pub fn from_id(s: &str) -> (r: Option<PackageManager>)
        ensures
            match r {
                Some(pm) => pm.spec_id() == s@,
                None => forall|pm: PackageManager| pm.spec_id() != s@,
            },
    {
        let text = chars_of(s);
        let all = [PackageManager::Cargo, PackageManager::Pnpm, PackageManager::Yarn, PackageManager::Npm, PackageManager::Bun];
        let mut i: usize = 0;
        while i < 5
            invariant
                i <= 5,
                text@ == s@,
                all@ == seq![PackageManager::Cargo, PackageManager::Pnpm, PackageManager::Yarn, PackageManager::Npm, PackageManager::Bun],
                forall|j: int| 0 <= j < i ==> (#[trigger] all@[j]).spec_id() != s@,
            decreases 5 - i,
        {
            let pm = all[i];
            if same_chars(&chars_of(pm.id()), &text) {
                return Some(pm);
            }
            i += 1;
        }
        assert forall|pm: PackageManager| pm.spec_id() != s@ by {
            let k: int = match pm {
                PackageManager::Cargo => 0,
                PackageManager::Pnpm => 1,
                PackageManager::Yarn => 2,
                PackageManager::Npm => 3,
                PackageManager::Bun => 4,
            };
            assert(all@[k] == pm);
        }
        None
    }

    pub fn node() -> (r: Vec<PackageManager>)
        ensures
            r@ == Self::spec_node(),
    {
        let r = vec![PackageManager::Pnpm, PackageManager::Yarn, PackageManager::Npm, PackageManager::Bun];
        assert(r@ =~= Self::spec_node());
        r
    }
}

} // verus!
