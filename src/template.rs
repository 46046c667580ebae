use vstd::prelude::*;

use crate::package_manager::PackageManager;
use crate::text::{chars_of, same_chars, string_of};

verus! {

/// The starter projects that can be generated.
#[derive(Debug, Clone, Copy, PartialEq, Eq, Structural)]
pub enum Template {
    Vanilla,
    VanillaTs,
    Vue,
    VueTs,
    Svelte,
    SvelteTs,
    React,
    ReactTs,
    Solid,
    SolidTs,
    Yew,
    Leptos,
    Sycamore,
    Angular,
    Preact,
    PreactTs,
}

/// The language surface of a template that comes in two variants.
#[derive(Debug, Clone, Copy, PartialEq, Eq, Structural)]
pub enum Flavor {
    JavaScript,
    TypeScript,
}

impl Flavor {
    pub open spec fn spec_name(self) -> Seq<char> {
        match self {
            Flavor::JavaScript => "JavaScript"@,
            Flavor::TypeScript => "TypeScript"@,
        }
    }

    /// The display name of the flavor.
    pub fn name(&self) -> (r: &'static str)
        ensures
            r@ == self.spec_name(),
    {
        match self {
            Flavor::JavaScript => "JavaScript",
            Flavor::TypeScript => "TypeScript",
        }
    }
}

impl Template {
    /// The identifier of the template; it also names the template's fragment zone.
    pub open spec fn spec_id(self) -> Seq<char> {
        match self {
            Template::Vanilla => "vanilla"@,
            Template::VanillaTs => "vanilla-ts"@,
            Template::Vue => "vue"@,
            Template::VueTs => "vue-ts"@,
            Template::Svelte => "svelte"@,
            Template::SvelteTs => "svelte-ts"@,
            Template::React => "react"@,
            Template::ReactTs => "react-ts"@,
            Template::Solid => "solid"@,
            Template::SolidTs => "solid-ts"@,
            Template::Yew => "yew"@,
            Template::Leptos => "leptos"@,
            Template::Sycamore => "sycamore"@,
            Template::Angular => "angular"@,
            Template::Preact => "preact"@,
            Template::PreactTs => "preact-ts"@,
        }
    }

    /// The variants that carry a flavor suffix; they are never offered in a menu.
    pub open spec fn is_flavored(self) -> bool {
        matches!(self, Template::VanillaTs | Template::VueTs | Template::SvelteTs
            | Template::ReactTs | Template::SolidTs | Template::PreactTs)
    }

    /// The templates that come in a JavaScript and a TypeScript flavor.
    pub open spec fn supports_flavors(self) -> bool {
        matches!(self, Template::Vanilla | Template::Vue | Template::Svelte
            | Template::React | Template::Solid | Template::Preact)
    }

    pub open spec fn spec_select_text(self) -> Seq<char> {
        match self {
            Template::Vanilla => "Vanilla"@,
            Template::Vue => "Vue - (https://vuejs.org)"@,
            Template::Svelte => "Svelte - (https://svelte.dev/)"@,
            Template::React => "React - (https://reactjs.org/)"@,
            Template::Solid => "Solid - (https://www.solidjs.com/)"@,
            Template::Yew => "Yew - (https://yew.rs/)"@,
            Template::Leptos => "Leptos - (https://github.com/leptos-rs/leptos)"@,
            Template::Sycamore => "Sycamore - (https://sycamore-rs.netlify.app/)"@,
            Template::Angular => "Angular - (https://angular.io/)"@,
            _ => "Preact - (https://preactjs.com/)"@,
        }
    }

    pub open spec fn spec_all() -> Seq<Template> {
        seq![
            Template::Vanilla, Template::VanillaTs, Template::Vue, Template::VueTs,
            Template::Svelte, Template::SvelteTs, Template::React, Template::ReactTs,
            Template::Solid, Template::SolidTs, Template::Yew, Template::Leptos,
            Template::Sycamore, Template::Angular, Template::Preact, Template::PreactTs,
        ]
    }

    /// Flavors are offered for flavor-capable templates, and never with cargo,
    /// which has no JavaScript build step.
    pub open spec fn spec_has_flavors(self, pm: PackageManager) -> bool {
        self.supports_flavors() && pm != PackageManager::Cargo
    }

    pub open spec fn spec_from_flavor(self, flavor: Flavor) -> Template {
        match (self, flavor) {
            (Template::Vanilla, Flavor::TypeScript) => Template::VanillaTs,
            (Template::Vue, Flavor::TypeScript) => Template::VueTs,
            (Template::Svelte, Flavor::TypeScript) => Template::SvelteTs,
            (Template::React, Flavor::TypeScript) => Template::ReactTs,
            (Template::Solid, Flavor::TypeScript) => Template::SolidTs,
            (Template::Preact, Flavor::TypeScript) => Template::PreactTs,
            _ => self,
        }
    }

    pub open spec fn spec_without_flavor(self) -> Template {
        match self {
            Template::VanillaTs => Template::Vanilla,
            Template::VueTs => Template::Vue,
            Template::SvelteTs => Template::Svelte,
            Template::ReactTs => Template::React,
            Template::SolidTs => Template::Solid,
            Template::PreactTs => Template::Preact,
            _ => self,
        }
    }

    pub open spec fn spec_package_managers(self) -> Seq<PackageManager> {
        match self {
            Template::Vanilla => seq![
                PackageManager::Cargo, PackageManager::Pnpm, PackageManager::Yarn,
                PackageManager::Npm, PackageManager::Bun,
            ],
            Template::Yew | Template::Leptos | Template::Sycamore => seq![PackageManager::Cargo],
            _ => PackageManager::spec_node(),
        }
    }

    pub open spec fn spec_needs_trunk(self) -> bool {
        matches!(self, Template::Sycamore | Template::Yew | Template::Leptos)
    }

    pub open spec fn spec_needs_tauri_cli(self) -> bool {
        matches!(self, Template::Sycamore | Template::Yew | Template::Leptos | Template::Vanilla)
    }

    pub open spec fn spec_needs_wasm32_target(self) -> bool {
        matches!(self, Template::Sycamore | Template::Yew | Template::Leptos)
    }

    /// The label under which the template is offered in a selection menu.
    pub fn select_text(&self) -> (r: &'static str)
        requires
            !self.is_flavored(),
        ensures
            r@ == self.spec_select_text(),
    {
        match self {
            Template::Vanilla => "Vanilla",
            Template::Vue => "Vue - (https://vuejs.org)",
            Template::Svelte => "Svelte - (https://svelte.dev/)",
            Template::React => "React - (https://reactjs.org/)",
            Template::Solid => "Solid - (https://www.solidjs.com/)",
            Template::Yew => "Yew - (https://yew.rs/)",
            Template::Leptos => "Leptos - (https://github.com/leptos-rs/leptos)",
            Template::Sycamore => "Sycamore - (https://sycamore-rs.netlify.app/)",
            Template::Angular => "Angular - (https://angular.io/)",
            _ => "Preact - (https://preactjs.com/)",
        }
    }

    /// The identifier of the template, as parsed and displayed.
    pub fn id(&self) -> (r: &'static str)
        ensures
            r@ == self.spec_id(),
    {
        match self {
            Template::Vanilla => "vanilla",
            Template::VanillaTs => "vanilla-ts",
            Template::Vue => "vue",
            Template::VueTs => "vue-ts",
            Template::Svelte => "svelte",
            Template::SvelteTs => "svelte-ts",
            Template::React => "react",
            Template::ReactTs => "react-ts",
            Template::Solid => "solid",
            Template::SolidTs => "solid-ts",
            Template::Yew => "yew",
            Template::Leptos => "leptos",
            Template::Sycamore => "sycamore",
            Template::Angular => "angular",
            Template::Preact => "preact",
            Template::PreactTs => "preact-ts",
        }
    }

    /// Every template, in catalog order.
    pub fn all() -> (r: Vec<Template>)
        ensures
            r@ == Self::spec_all(),
    {
        let r = vec![
            Template::Vanilla, Template::VanillaTs, Template::Vue, Template::VueTs,
            Template::Svelte, Template::SvelteTs, Template::React, Template::ReactTs,
            Template::Solid, Template::SolidTs, Template::Yew, Template::Leptos,
            Template::Sycamore, Template::Angular, Template::Preact, Template::PreactTs,
        ];
        assert(r@ =~= Self::spec_all());
        r
    }

    pub fn flavors(&self, pkg_manager: PackageManager) -> (r: Option<Vec<Flavor>>)
        ensures
            r is Some <==> self.spec_has_flavors(pkg_manager),
            r is Some ==> r->Some_0@ == seq![Flavor::TypeScript, Flavor::JavaScript],
    {
        if self.supports_flavors_exec() && pkg_manager != PackageManager::Cargo {
            let v = vec![Flavor::TypeScript, Flavor::JavaScript];
            assert(v@ =~= seq![Flavor::TypeScript, Flavor::JavaScript]);
            Some(v)
        } else {
            None
        }
    }

    fn supports_flavors_exec(&self) -> (r: bool)
        ensures
            r == self.supports_flavors(),
    {
        matches!(self, Template::Vanilla | Template::Vue | Template::Svelte
            | Template::React | Template::Solid | Template::Preact)
    }

    pub fn from_flavor(&self, flavor: Flavor) -> (r: Template)
        ensures
            r == self.spec_from_flavor(flavor),
    {
        match (self, flavor) {
            (Template::Vanilla, Flavor::TypeScript) => Template::VanillaTs,
            (Template::Vue, Flavor::TypeScript) => Template::VueTs,
            (Template::Svelte, Flavor::TypeScript) => Template::SvelteTs,
            (Template::React, Flavor::TypeScript) => Template::ReactTs,
            (Template::Solid, Flavor::TypeScript) => Template::SolidTs,
            (Template::Preact, Flavor::TypeScript) => Template::PreactTs,
            _ => *self,
        }
    }

    pub fn without_flavor(&self) -> (r: Template)
        ensures
            r == self.spec_without_flavor(),
    {
        match self {
            Template::VanillaTs => Template::Vanilla,
            Template::VueTs => Template::Vue,
            Template::SvelteTs => Template::Svelte,
            Template::ReactTs => Template::React,
            Template::SolidTs => Template::Solid,
            Template::PreactTs => Template::Preact,
            _ => *self,
        }
    }

    pub fn possible_package_managers(&self) -> (r: Vec<PackageManager>)
        ensures
            r@ == self.spec_package_managers(),
    {
        match self {
            Template::Vanilla => {
                let r = vec![
                    PackageManager::Cargo, PackageManager::Pnpm, PackageManager::Yarn,
                    PackageManager::Npm, PackageManager::Bun,
                ];
                assert(r@ =~= self.spec_package_managers());
                r
            },
            Template::Yew | Template::Leptos | Template::Sycamore => {
                let r = vec![PackageManager::Cargo];
                assert(r@ =~= self.spec_package_managers());
                r
            },
            _ => PackageManager::node(),
        }
    }

    pub fn needs_trunk(&self) -> (r: bool)
        ensures
            r == self.spec_needs_trunk(),
    {
        matches!(self, Template::Sycamore | Template::Yew | Template::Leptos)
    }

    pub fn needs_tauri_cli(&self) -> (r: bool)
        ensures
            r == self.spec_needs_tauri_cli(),
    {
        matches!(self, Template::Sycamore | Template::Yew | Template::Leptos | Template::Vanilla)
    }

    pub fn needs_wasm32_target(&self) -> (r: bool)
        ensures
            r == self.spec_needs_wasm32_target(),
    {
        matches!(self, Template::Sycamore | Template::Yew | Template::Leptos)
    }
}

/// Choosing a flavor for a flavor-capable template and then stripping it again
/// gives back the template.
pub proof fn lemma_without_flavor_undoes_from_flavor(t: Template, flavor: Flavor)
    requires
        t.supports_flavors(),
    ensures
        t.spec_from_flavor(flavor).spec_without_flavor() == t,
{
}

/// Choosing a flavor for a template that has no flavors leaves it unchanged.
pub proof fn lemma_from_flavor_without_support(t: Template, flavor: Flavor)
    requires
        !t.supports_flavors(),
    ensures
        t.spec_from_flavor(flavor) == t,
{
}

/// The identifiers of `ts`, separated by `, `.
pub open spec fn joined_ids(ts: Seq<Template>) -> Seq<char>
    decreases ts.len(),
{
    if ts.len() == 0 {
        seq![]
    } else if ts.len() == 1 {
        ts[0].spec_id()
    } else {
        joined_ids(ts.drop_last()) + ", "@ + ts.last().spec_id()
    }
}

/// The message for text that names no template; it lists every identifier.
pub open spec fn invalid_template_message(s: Seq<char>) -> Seq<char> {
    s + " is not a valid template. Valid templates are ["@ + joined_ids(Template::spec_all()) + "]"@
}

fn push_all(out: &mut Vec<char>, s: &str)
    ensures
        final(out)@ == old(out)@ + s@,
{
    let mut c = chars_of(s);
    out.append(&mut c);
}

impl Template {
    /// The template whose identifier is exactly `s`, or a message that lists
    /// the valid identifiers.
    pub fn parse(s: &str) -> (r: Result<Template, String>)
        ensures
            match r {
                Ok(t) => t.spec_id() == s@,
                Err(msg) => (forall|t: Template| t.spec_id() != s@) && msg@ == invalid_template_message(s@),
            },
    {
        let all = Template::all();
        let text = chars_of(s);
        let mut listed: Vec<char> = Vec::new();
        let mut i: usize = 0;
        while i < all.len()
            invariant
                i <= all@.len(),
                all@ == Template::spec_all(),
                text@ == s@,
                forall|j: int| 0 <= j < i ==> (#[trigger] all@[j]).spec_id() != s@,
                listed@ == joined_ids(all@.subrange(0, i as int)),
            decreases all@.len() - i,
        {
            let t = all[i];
            if same_chars(&chars_of(t.id()), &text) {
                return Ok(t);
            }
            let ghost before = listed@;
            if i > 0 {
                push_all(&mut listed, ", ");
            }
            push_all(&mut listed, t.id());
            proof {
                let pre = all@.subrange(0, i + 1);
                assert(pre.drop_last() =~= all@.subrange(0, i as int));
                if i == 0 {
                    assert(Seq::<char>::empty() + t.spec_id() =~= t.spec_id());
                }
            }
            i += 1;
        }
        proof {
            assert(all@.subrange(0, all@.len() as int) =~= all@);
            assert forall|t: Template| t.spec_id() != s@ by {
                assert(all@[t.catalog_index()] == t);
            }
        }
        let mut msg: Vec<char> = chars_of(s);
        push_all(&mut msg, " is not a valid template. Valid templates are [");
        msg.append(&mut listed);
        push_all(&mut msg, "]");
        Err(string_of(&msg))
    }

    /// The position of the template in the catalog order.
    pub open spec fn catalog_index(self) -> int {
        match self {
            Template::Vanilla => 0,
            Template::VanillaTs => 1,
            Template::Vue => 2,
            Template::VueTs => 3,
            Template::Svelte => 4,
            Template::SvelteTs => 5,
            Template::React => 6,
            Template::ReactTs => 7,
            Template::Solid => 8,
            Template::SolidTs => 9,
            Template::Yew => 10,
            Template::Leptos => 11,
            Template::Sycamore => 12,
            Template::Angular => 13,
            Template::Preact => 14,
            Template::PreactTs => 15,
        }
    }
}

impl Default for Template {
    fn default() -> (r: Template)
        ensures
            r == Template::Vanilla,
    {
        Template::Vanilla
    }
}

} // verus!
