use vstd::prelude::*;

use crate::package_manager::PackageManager;
use crate::text::{chars_of, lemma_split_on_join, lemma_split_on_no_sep, same_chars, split_chars, split_on, string_of, sub_chars};

verus! {

/// The first `)%` that starts at or after `from`.
pub open spec fn find_close(s: Seq<char>, from: nat) -> Option<nat>
    decreases s.len() - from,
{
    if from + 1 >= s.len() {
        None
    } else if s[from as int] == ')' && s[from + 1int] == '%' {
        Some(from)
    } else {
        find_close(s, from + 1)
    }
}

/// A conditional name: `%(<flags>)%<name>`.
pub open spec fn is_conditional(name: Seq<char>) -> bool {
    name.len() >= 2 && name[0] == '%' && name[1] == '(' && find_close(name, 2) is Some
}

/// The flag text between `%(` and the first `)%`.
pub open spec fn flags_of(name: Seq<char>) -> Seq<char> {
    name.subrange(2, find_close(name, 2)->Some_0 as int)
}

/// The name after the first `)%`, up to the next `)%` if there is one.
pub open spec fn final_of(name: Seq<char>) -> Seq<char> {
    let start = find_close(name, 2)->Some_0 + 2;
    match find_close(name, start) {
        Some(end) => name.subrange(start as int, end as int),
        None => name.subrange(start as int, name.len() as int),
    }
}

pub open spec fn is_channel_word(t: Seq<char>) -> bool {
    t == "stable"@ || t == "alpha"@ || t == "mobile"@
}

/// The channel rule: a stable file needs the stable channel, an alpha file
/// the alpha channel without the mobile target, a mobile file both; a file
/// with no channel tag is eligible on every channel.
pub open spec fn channel_ok(flags: Seq<Seq<char>>, alpha: bool, mobile: bool) -> bool {
    let stable_tag = flags.contains("stable"@);
    let alpha_tag = flags.contains("alpha"@);
    let mobile_tag = flags.contains("mobile"@);
    (stable_tag && !alpha) || (alpha_tag && alpha && !mobile) || (mobile_tag && alpha && mobile)
        || (!stable_tag && !alpha_tag && !mobile_tag)
}

/// The manager rule: the flags other than channel words are empty, or name the manager.
pub open spec fn manager_ok(flags: Seq<Seq<char>>, pm: PackageManager) -> bool {
    (forall|i: int| 0 <= i < flags.len() ==> is_channel_word(#[trigger] flags[i]))
        || (exists|i: int| 0 <= i < flags.len() && #[trigger] flags[i] == pm.spec_id() && !is_channel_word(flags[i]))
}

/// The name under which a file whose base name is `name` is written, or `None`
/// when it is not written at all.
pub open spec fn resolved_name(name: Seq<char>, pm: PackageManager, alpha: bool, mobile: bool) -> Option<Seq<char>> {
    if name == "_gitignore"@ {
        Some(".gitignore"@)
    } else if name == "_Cargo.toml"@ {
        Some("Cargo.toml"@)
    } else if name == "_cta_manifest_"@ {
        None
    } else if is_conditional(name) {
        let flags = split_on(flags_of(name), '-');
        if channel_ok(flags, alpha, mobile) && manager_ok(flags, pm) && final_of(name) != "_cta_manifest_"@ {
            Some(final_of(name))
        } else {
            None
        }
    } else {
        Some(name)
    }
}

fn find_close_exec(s: &Vec<char>, from: usize) -> (r: Option<usize>)
    ensures
        match r {
            Some(k) => find_close(s@, from as nat) == Some(k as nat) && from <= k && k + 1 < s@.len(),
            None => find_close(s@, from as nat) is None,
        },
{
    let mut i: usize = from;
    while i < s.len() && i + 1 < s.len()
        invariant
            from <= i,
            s@.len() == s.len(),
            find_close(s@, from as nat) == find_close(s@, i as nat),
        decreases s@.len() - i,
    {
        if s[i] == ')' && s[i + 1] == '%' {
            return Some(i);
        }
        i += 1;
    }
    None
}

/// Decides whether the flags of a conditional name admit the file.
fn flags_admit(flags: &Vec<Vec<char>>, pm: PackageManager, alpha: bool, mobile: bool) -> (r: bool)
    ensures
        ({
            let fv = flags@.map_values(|p: Vec<char>| p@);
            r == (channel_ok(fv, alpha, mobile) && manager_ok(fv, pm))
        }),
{
    let ghost fv = flags@.map_values(|p: Vec<char>| p@);
    let stable = chars_of("stable");
    let alpha_word = chars_of("alpha");
    let mobile_word = chars_of("mobile");
    let pm_word = chars_of(pm.id());
    let mut stable_tag = false;
    let mut alpha_tag = false;
    let mut mobile_tag = false;
    let mut all_channel = true;
    let mut names_pm = false;
    let mut i: usize = 0;
    while i < flags.len()
        invariant
            i <= flags@.len(),
            fv == flags@.map_values(|p: Vec<char>| p@),
            stable@ == "stable"@,
            alpha_word@ == "alpha"@,
            mobile_word@ == "mobile"@,
            pm_word@ == pm.spec_id(),
            stable_tag == (exists|j: int| 0 <= j < i && fv[j] == "stable"@),
            alpha_tag == (exists|j: int| 0 <= j < i && fv[j] == "alpha"@),
            mobile_tag == (exists|j: int| 0 <= j < i && fv[j] == "mobile"@),
            all_channel == (forall|j: int| 0 <= j < i ==> is_channel_word(#[trigger] fv[j])),
            names_pm == (exists|j: int| 0 <= j < i && #[trigger] fv[j] == pm.spec_id() && !is_channel_word(fv[j])),
        decreases flags@.len() - i,
    {
        let f = &flags[i];
        assert(fv[i as int] == f@);
        let is_stable = same_chars(f, &stable);
        let is_alpha = same_chars(f, &alpha_word);
        let is_mobile = same_chars(f, &mobile_word);
        let is_pm = same_chars(f, &pm_word);
        let channel = is_stable || is_alpha || is_mobile;
        stable_tag = stable_tag || is_stable;
        alpha_tag = alpha_tag || is_alpha;
        mobile_tag = mobile_tag || is_mobile;
        all_channel = all_channel && channel;
        names_pm = names_pm || (is_pm && !channel);
        i += 1;
        assert(forall|j: int| 0 <= j < i ==> fv[j] == #[trigger] fv[j]);
    }
    proof {
        assert(fv.len() == flags@.len());
        assert(stable_tag == fv.contains("stable"@)) by {
            if stable_tag {
                let j = choose|j: int| 0 <= j < fv.len() && fv[j] == "stable"@;
                assert(fv[j] == "stable"@);
            }
        }
        assert(alpha_tag == fv.contains("alpha"@)) by {
            if alpha_tag {
                let j = choose|j: int| 0 <= j < fv.len() && fv[j] == "alpha"@;
                assert(fv[j] == "alpha"@);
            }
        }
        assert(mobile_tag == fv.contains("mobile"@)) by {
            if mobile_tag {
                let j = choose|j: int| 0 <= j < fv.len() && fv[j] == "mobile"@;
                assert(fv[j] == "mobile"@);
            }
        }
    }
    ((stable_tag && !alpha) || (alpha_tag && alpha && !mobile) || (mobile_tag && alpha && mobile)
        || (!stable_tag && !alpha_tag && !mobile_tag)) && (all_channel || names_pm)
}

/// The name under which a file with base name `name` is written, or `None`
/// when the file is skipped.
pub fn resolve_chars(name: &Vec<char>, pm: PackageManager, alpha: bool, mobile: bool) -> (r: Option<Vec<char>>)
    ensures
        match r {
            Some(v) => resolved_name(name@, pm, alpha, mobile) == Some(v@),
            None => resolved_name(name@, pm, alpha, mobile) is None,
        },
{
    let gitignore = chars_of("_gitignore");
    let cargo_toml = chars_of("_Cargo.toml");
    let marker = chars_of("_cta_manifest_");
    if same_chars(name, &gitignore) {
        return Some(chars_of(".gitignore"));
    }
    if same_chars(name, &cargo_toml) {
        return Some(chars_of("Cargo.toml"));
    }
    if same_chars(name, &marker) {
        return None;
    }
    if name.len() >= 2 && name[0] == '%' && name[1] == '(' {
        match find_close_exec(name, 2) {
            Some(k) => {
                let start = k + 2;
                let end = match find_close_exec(name, start) {
                    Some(m) => m,
                    None => name.len(),
                };
                let flag_text = sub_chars(name, 2, k);
                let flags = split_chars(&flag_text, '-');
                let target = sub_chars(name, start, end);
                if flags_admit(&flags, pm, alpha, mobile) && !same_chars(&target, &marker) {
                    return Some(target);
                } else {
                    return None;
                }
            },
            None => {},
        }
    }
    let copy = sub_chars(name, 0, name.len());
    assert(name@.subrange(0, name@.len() as int) =~= name@);
    Some(copy)
}

/// The output name of a file with base name `name` for the given manager and
/// channels, or `None` when the file is not written.
pub fn resolve_file_name(name: &str, pkg_manager: PackageManager, alpha: bool, mobile: bool) -> (r: Option<String>)
    ensures
        match r {
            Some(s) => resolved_name(name@, pkg_manager, alpha, mobile) == Some(s@),
            None => resolved_name(name@, pkg_manager, alpha, mobile) is None,
        },
{
    let chars = chars_of(name);
    match resolve_chars(&chars, pkg_manager, alpha, mobile) {
        Some(v) => Some(string_of(&v)),
        None => None,
    }
}

} // verus!

verus! {

/// A file tagged only `mobile` is written, under its plain name, exactly when
/// both the alpha channel and the mobile target are selected.
pub proof fn lemma_mobile_tagged_file(pm: PackageManager, alpha: bool, mobile: bool)
    ensures
        resolved_name("%(mobile)%config.extra.json"@, pm, alpha, mobile)
            == if alpha && mobile { Some("config.extra.json"@) } else { None::<Seq<char>> },
{
    let name = "%(mobile)%config.extra.json"@;
    reveal_strlit("%(mobile)%config.extra.json");
    reveal_strlit("config.extra.json");
    reveal_strlit("mobile");
    reveal_strlit("stable");
    reveal_strlit("alpha");
    reveal_strlit("_gitignore");
    reveal_strlit("_Cargo.toml");
    reveal_strlit("_cta_manifest_");
    reveal_with_fuel(find_close, 30);
    assert(find_close(name, 2) == Some(8nat));
    assert(find_close(name, 10) is None);
    assert(flags_of(name) =~= "mobile"@);
    assert(final_of(name) =~= "config.extra.json"@);
    let flags = split_on("mobile"@, '-');
    lemma_split_on_no_sep("mobile"@, '-');
    assert(flags.contains("mobile"@)) by {
        assert(flags[0] == "mobile"@);
    }
    assert("mobile"@ != "stable"@) by {
        assert("mobile"@[0] != "stable"@[0]);
    }
    assert("mobile"@ != "alpha"@) by {
        assert("mobile"@.len() != "alpha"@.len());
    }
    assert(!flags.contains("stable"@));
    assert(!flags.contains("alpha"@));
    assert(manager_ok(flags, pm)) by {
        assert(is_channel_word(flags[0]));
    }
}

} // verus!

verus! {

/// A file tagged `pnpm-npm-yarn-stable-alpha` is written as `package.json` on
/// the stable channel exactly for pnpm, npm and yarn.
pub proof fn lemma_stable_manager_tagged_file(pm: PackageManager, mobile: bool)
    ensures
        resolved_name("%(pnpm-npm-yarn-stable-alpha)%package.json"@, pm, false, mobile)
            == if pm == PackageManager::Pnpm || pm == PackageManager::Npm || pm == PackageManager::Yarn {
                Some("package.json"@)
            } else {
                None::<Seq<char>>
            },
{
    let name = "%(pnpm-npm-yarn-stable-alpha)%package.json"@;
    reveal_strlit("%(pnpm-npm-yarn-stable-alpha)%package.json");
    reveal_strlit("pnpm-npm-yarn-stable-alpha");
    reveal_strlit("npm-yarn-stable-alpha");
    reveal_strlit("yarn-stable-alpha");
    reveal_strlit("stable-alpha");
    reveal_strlit("package.json");
    reveal_strlit("pnpm");
    reveal_strlit("npm");
    reveal_strlit("yarn");
    reveal_strlit("stable");
    reveal_strlit("alpha");
    reveal_strlit("mobile");
    reveal_strlit("cargo");
    reveal_strlit("bun");
    reveal_strlit("_gitignore");
    reveal_strlit("_Cargo.toml");
    reveal_strlit("_cta_manifest_");
    reveal_with_fuel(find_close, 50);
    assert(find_close(name, 2) == Some(28nat));
    assert(find_close(name, 30) is None);
    assert(flags_of(name) =~= "pnpm-npm-yarn-stable-alpha"@);
    assert(final_of(name) =~= "package.json"@);
    assert("pnpm-npm-yarn-stable-alpha"@ =~= "pnpm"@ + seq!['-'] + "npm-yarn-stable-alpha"@);
    assert("npm-yarn-stable-alpha"@ =~= "npm"@ + seq!['-'] + "yarn-stable-alpha"@);
    assert("yarn-stable-alpha"@ =~= "yarn"@ + seq!['-'] + "stable-alpha"@);
    assert("stable-alpha"@ =~= "stable"@ + seq!['-'] + "alpha"@);
    lemma_split_on_join("stable"@, "alpha"@, '-');
    lemma_split_on_join("yarn"@, "stable-alpha"@, '-');
    lemma_split_on_join("npm"@, "yarn-stable-alpha"@, '-');
    lemma_split_on_join("pnpm"@, "npm-yarn-stable-alpha"@, '-');
    lemma_split_on_no_sep("pnpm"@, '-');
    lemma_split_on_no_sep("npm"@, '-');
    lemma_split_on_no_sep("yarn"@, '-');
    lemma_split_on_no_sep("stable"@, '-');
    lemma_split_on_no_sep("alpha"@, '-');
    let flags = split_on("pnpm-npm-yarn-stable-alpha"@, '-');
    assert(flags =~= seq!["pnpm"@, "npm"@, "yarn"@, "stable"@, "alpha"@]);
    assert(flags.contains("stable"@)) by {
        assert(flags[3] == "stable"@);
    }
    assert(channel_ok(flags, false, mobile));
    assert(!is_channel_word(flags[0])) by {
        assert("pnpm"@.len() != "stable"@.len());
        assert("pnpm"@[0] != "alpha"@[0]);
        assert("pnpm"@.len() != "mobile"@.len());
    }
    assert(!is_channel_word(flags[1])) by {
        assert("npm"@.len() != "stable"@.len());
        assert("npm"@.len() != "alpha"@.len());
        assert("npm"@.len() != "mobile"@.len());
    }
    assert(!is_channel_word(flags[2])) by {
        assert("yarn"@.len() != "stable"@.len());
        assert("yarn"@.len() != "alpha"@.len());
        assert("yarn"@.len() != "mobile"@.len());
    }
    if pm == PackageManager::Pnpm {
        assert(flags[0] == pm.spec_id());
    } else if pm == PackageManager::Npm {
        assert(flags[1] == pm.spec_id());
    } else if pm == PackageManager::Yarn {
        assert(flags[2] == pm.spec_id());
    } else {
        let id = pm.spec_id();
        assert(id[0] != 'p' && id[0] != 'n' && id[0] != 'y' && id[0] != 's');
        assert(id == "cargo"@ || id == "bun"@);
        assert(id != "alpha"@) by {
            assert(id[0] != "alpha"@[0]);
        }
        assert forall|i: int| 0 <= i < flags.len() implies #[trigger] flags[i] != id by {
            if i < 4 {
                assert(flags[i][0] != id[0]);
            }
        }
        assert(!manager_ok(flags, pm));
    }
}

} // verus!
