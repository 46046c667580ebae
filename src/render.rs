use vstd::prelude::*;
use vstd::utf8::{decode_utf8, encode_utf8, valid_utf8};

use crate::conditional::{resolve_chars, resolved_name};
use crate::manifest::{manifest_replaced, pair_view, parsed, Manifest, ManifestModel};
use crate::package_manager::PackageManager;
use crate::template::Template;
use crate::text::{chars_of, find_char, find_char_exec, replace_all, replaced, rfind_char, rfind_char_exec, same_chars, string_of, sub_chars};

verus! {

/// One entry of the read-only asset store: its virtual path, whose first
/// component names its zone, and its bytes.
pub struct Asset {
    pub path: String,
    pub data: Vec<u8>,
}

/// One write of a render, relative to the target directory: the file is
/// truncated and written, or appended to (and created if absent).
pub struct FileWrite {
    pub path: String,
    pub data: Vec<u8>,
    pub append: bool,
}

pub struct WriteModel {
    pub path: Seq<char>,
    pub data: Seq<u8>,
    pub append: bool,
}

/// Why a render stopped.
pub enum RenderError {
    /// The manifest marker or an extra asset is not in the store.
    AssetNotFound(String),
    /// The manifest marker is not UTF-8 text.
    ManifestNotText,
    /// The manifest marker has a malformed line (one-based).
    ManifestParse(usize),
}

pub enum RenderErrorModel {
    AssetNotFound(Seq<char>),
    ManifestNotText,
    ManifestParse(nat),
}

pub open spec fn asset_view(a: Asset) -> (Seq<char>, Seq<u8>) {
    (a.path@, a.data@)
}

pub open spec fn write_view(w: FileWrite) -> WriteModel {
    WriteModel { path: w.path@, data: w.data@, append: w.append }
}

pub open spec fn error_view(e: RenderError) -> RenderErrorModel {
    match e {
        RenderError::AssetNotFound(p) => RenderErrorModel::AssetNotFound(p@),
        RenderError::ManifestNotText => RenderErrorModel::ManifestNotText,
        RenderError::ManifestParse(l) => RenderErrorModel::ManifestParse(l as nat),
    }
}

pub open spec fn store_view(store: Seq<Asset>) -> Seq<(Seq<char>, Seq<u8>)> {
    store.map_values(|a: Asset| asset_view(a))
}

/// The bytes of the first entry with path `key`.
pub open spec fn lookup(store: Seq<(Seq<char>, Seq<u8>)>, key: Seq<char>) -> Option<Seq<u8>>
    decreases store.len(),
{
    if store.len() == 0 {
        None
    } else if store[0].0 == key {
        Some(store[0].1)
    } else {
        lookup(store.drop_first(), key)
    }
}

/// The name a library crate of the package gets: dashes become underscores,
/// and `_lib` is appended.
pub open spec fn lib_name_of(package_name: Seq<char>) -> Seq<char> {
    replaced(package_name, "-"@, "_"@) + "_lib"@
}

pub open spec fn double_dash(pm: PackageManager) -> Seq<char> {
    if pm == PackageManager::Npm {
        " --"@
    } else {
        ""@
    }
}

/// The substitution of a text file: the manifest's variables first, then the
/// library name, the package name, the run command and the separator, each
/// step over the result of the one before.
pub open spec fn substituted(
    content: Seq<char>,
    lib_name: Seq<char>,
    package_name: Seq<char>,
    pm: PackageManager,
    m: ManifestModel,
) -> Seq<char> {
    let a = manifest_replaced(m, content);
    let b = replaced(a, "~lib_name~"@, lib_name);
    let c = replaced(b, "~package_name~"@, package_name);
    let d = replaced(c, "~pkg_manager_run_command~"@, pm.spec_run_cmd());
    replaced(d, "~double-dash~"@, double_dash(pm))
}

/// The output names whose text is substituted.
pub open spec fn allow_listed(name: Seq<char>) -> bool {
    name == "Cargo.toml"@ || name == "package.json"@ || name == "tauri.conf.json"@ || name == "main.rs"@
        || name == "vite.config.ts"@ || name == "vite.config.js"@ || name == "Trunk.toml"@
        || name == "angular.json"@
}

/// The bytes written for a file named `name`: substituted when the name is
/// allow-listed and the bytes are UTF-8 text, else the bytes unchanged.
pub open spec fn file_content(
    name: Seq<char>,
    data: Seq<u8>,
    package_name: Seq<char>,
    pm: PackageManager,
    m: ManifestModel,
) -> Seq<u8> {
    if allow_listed(name) && valid_utf8(data) {
        encode_utf8(substituted(decode_utf8(data), lib_name_of(package_name), package_name, pm, m))
    } else {
        data
    }
}

/// The directory part of a relative path, with its trailing `/`.
pub open spec fn dir_of(rel: Seq<char>) -> Seq<char> {
    match rfind_char(rel, '/') {
        Some(j) => rel.subrange(0, j + 1int),
        None => seq![],
    }
}

/// The last component of a relative path.
pub open spec fn base_of(rel: Seq<char>) -> Seq<char> {
    match rfind_char(rel, '/') {
        Some(j) => rel.subrange(j + 1int, rel.len() as int),
        None => rel,
    }
}

/// The write of one store entry during the pass over `zone`, if any: the entry
/// must lie in the zone, and its base name must resolve; the zone component is
/// dropped from the output path.
pub open spec fn entry_write(
    entry: (Seq<char>, Seq<u8>),
    zone: Seq<char>,
    pm: PackageManager,
    package_name: Seq<char>,
    alpha: bool,
    mobile: bool,
    m: ManifestModel,
) -> Option<WriteModel> {
    let path = entry.0;
    match find_char(path, '/', 0) {
        None => None,
        Some(i) => if path.subrange(0, i as int) != zone {
            None
        } else {
            let rel = path.subrange(i + 1int, path.len() as int);
            match resolved_name(base_of(rel), pm, alpha, mobile) {
                None => None,
                Some(name) => Some(WriteModel {
                    path: dir_of(rel) + name,
                    data: file_content(name, entry.1, package_name, pm, m),
                    append: false,
                }),
            }
        },
    }
}

/// The writes of the pass over `zone`, for the first `n` entries of the store.
pub open spec fn zone_writes(
    store: Seq<(Seq<char>, Seq<u8>)>,
    n: nat,
    zone: Seq<char>,
    pm: PackageManager,
    package_name: Seq<char>,
    alpha: bool,
    mobile: bool,
    m: ManifestModel,
) -> Seq<WriteModel>
    decreases n,
{
    if n == 0 || n > store.len() {
        seq![]
    } else {
        let prev = zone_writes(store, (n - 1) as nat, zone, pm, package_name, alpha, mobile, m);
        match entry_write(store[n - 1], zone, pm, package_name, alpha, mobile, m) {
            Some(w) => prev.push(w),
            None => prev,
        }
    }
}

/// The appends of the first `n` extra files, or the path of the first asset missing.
pub open spec fn extra_writes(
    store: Seq<(Seq<char>, Seq<u8>)>,
    files: Seq<(Seq<char>, Seq<char>)>,
    n: nat,
) -> Result<Seq<WriteModel>, Seq<char>>
    decreases n,
{
    if n == 0 || n > files.len() {
        Ok(seq![])
    } else {
        match extra_writes(store, files, (n - 1) as nat) {
            Err(p) => Err(p),
            Ok(prev) => {
                let key = "_assets_/"@ + files[n - 1].0;
                match lookup(store, key) {
                    None => Err(key),
                    Some(d) => Ok(prev.push(WriteModel { path: files[n - 1].1, data: d, append: true })),
                }
            },
        }
    }
}

pub open spec fn zone_name(t: Template) -> Seq<char> {
    "fragment-"@ + t.spec_id()
}

pub open spec fn marker_path(t: Template) -> Seq<char> {
    zone_name(t) + "/_cta_manifest_"@
}

/// Every write of a render, in order: the base zone, then the template's zone,
/// then the manifest's extra files; or the error that stops it.
pub open spec fn rendered(
    t: Template,
    store: Seq<(Seq<char>, Seq<u8>)>,
    pm: PackageManager,
    package_name: Seq<char>,
    alpha: bool,
    mobile: bool,
) -> Result<Seq<WriteModel>, RenderErrorModel> {
    match lookup(store, marker_path(t)) {
        None => Err(RenderErrorModel::AssetNotFound(marker_path(t))),
        Some(bytes) => if !valid_utf8(bytes) {
            Err(RenderErrorModel::ManifestNotText)
        } else {
            match parsed(decode_utf8(bytes), mobile) {
                Err(line) => Err(RenderErrorModel::ManifestParse(line)),
                Ok(m) => match extra_writes(store, m.files, m.files.len()) {
                    Err(p) => Err(RenderErrorModel::AssetNotFound(p)),
                    Ok(extra) => Ok(
                        zone_writes(store, store.len(), "_base_"@, pm, package_name, alpha, mobile, m)
                            + zone_writes(store, store.len(), zone_name(t), pm, package_name, alpha, mobile, m)
                            + extra,
                    ),
                },
            }
        },
    }
}

/// Relies on `String::from_utf8`: `Some` exactly for valid UTF-8, holding the
/// decoded characters.
#[verifier::external_body]
fn decode_text(data: &Vec<u8>) -> (r: Option<String>)
    ensures
        r is Some <==> valid_utf8(data@),
        r is Some ==> r->Some_0@ == decode_utf8(data@),
{
    String::from_utf8(data.clone()).ok()
}

fn concat(a: &Vec<char>, b: &Vec<char>) -> (r: Vec<char>)
    ensures
        r@ == a@ + b@,
{
    let mut r = sub_chars(a, 0, a.len());
    let mut c = sub_chars(b, 0, b.len());
    assert(a@.subrange(0, a@.len() as int) =~= a@);
    assert(b@.subrange(0, b@.len() as int) =~= b@);
    r.append(&mut c);
    r
}

fn copy_bytes(d: &Vec<u8>) -> (r: Vec<u8>)
    ensures
        r@ == d@,
{
    let mut r: Vec<u8> = Vec::new();
    let mut i: usize = 0;
    while i < d.len()
        invariant
            i <= d@.len(),
            r@ == d@.subrange(0, i as int),
        decreases d@.len() - i,
    {
        r.push(d[i]);
        i += 1;
        assert(r@ =~= d@.subrange(0, i as int));
    }
    assert(d@.subrange(0, d@.len() as int) =~= d@);
    r
}

/// The bytes of the first entry with path `key`.
pub fn lookup_asset(store: &Vec<Asset>, key: &Vec<char>) -> (r: Option<Vec<u8>>)
    ensures
        match r {
            Some(d) => lookup(store_view(store@), key@) == Some(d@),
            None => lookup(store_view(store@), key@) is None,
        },
{
    let ghost sv = store_view(store@);
    let mut i: usize = 0;
    assert(sv.subrange(0, sv.len() as int) =~= sv);
    while i < store.len()
        invariant
            i <= store@.len(),
            sv == store_view(store@),
            lookup(sv, key@) == lookup(sv.subrange(i as int, sv.len() as int), key@),
        decreases store@.len() - i,
    {
        let entry = &store[i];
        assert(sv.subrange(i as int, sv.len() as int)[0] == asset_view(*entry));
        assert(sv.subrange(i as int, sv.len() as int).drop_first() =~= sv.subrange(i + 1, sv.len() as int));
        if same_chars(&chars_of(entry.path.as_str()), key) {
            return Some(copy_bytes(&entry.data));
        }
        i += 1;
    }
    None
}

pub fn is_allow_listed(name: &Vec<char>) -> (r: bool)
    ensures
        r == allow_listed(name@),
{
    same_chars(name, &chars_of("Cargo.toml")) || same_chars(name, &chars_of("package.json"))
        || same_chars(name, &chars_of("tauri.conf.json")) || same_chars(name, &chars_of("main.rs"))
        || same_chars(name, &chars_of("vite.config.ts")) || same_chars(name, &chars_of("vite.config.js"))
        || same_chars(name, &chars_of("Trunk.toml")) || same_chars(name, &chars_of("angular.json"))
}

fn lib_name_chars(package_name: &Vec<char>) -> (r: Vec<char>)
    ensures
        r@ == lib_name_of(package_name@),
{
    proof {
        reveal_strlit("-");
    }
    let dashed = replace_all(package_name, &chars_of("-"), &chars_of("_"));
    concat(&dashed, &chars_of("_lib"))
}

/// The name of the library crate of a package called `package_name`.
pub fn lib_name(package_name: &str) -> (r: String)
    ensures
        r@ == lib_name_of(package_name@),
{
    string_of(&lib_name_chars(&chars_of(package_name)))
}

fn substitute_chars(
    content: &Vec<char>,
    lib_name: &Vec<char>,
    package_name: &Vec<char>,
    pm: PackageManager,
    manifest: &Manifest,
) -> (r: Vec<char>)
    ensures
        r@ == substituted(content@, lib_name@, package_name@, pm, manifest@),
{
    proof {
        reveal_strlit("~lib_name~");
        reveal_strlit("~package_name~");
        reveal_strlit("~pkg_manager_run_command~");
        reveal_strlit("~double-dash~");
    }
    let a = manifest.replace_vars(content);
    let b = replace_all(&a, &chars_of("~lib_name~"), lib_name);
    let c = replace_all(&b, &chars_of("~package_name~"), package_name);
    let d = replace_all(&c, &chars_of("~pkg_manager_run_command~"), &chars_of(pm.run_cmd()));
    let dash = if pm == PackageManager::Npm {
        chars_of(" --")
    } else {
        chars_of("")
    };
    replace_all(&d, &chars_of("~double-dash~"), &dash)
}

fn content_chars(
    name: &Vec<char>,
    data: &Vec<u8>,
    lib_name: &Vec<char>,
    package_name: &Vec<char>,
    pm: PackageManager,
    manifest: &Manifest,
) -> (r: Vec<u8>)
    requires
        lib_name@ == lib_name_of(package_name@),
    ensures
        r@ == file_content(name@, data@, package_name@, pm, manifest@),
{
    if is_allow_listed(name) {
        match decode_text(data) {
            Some(text) => {
                let chars = chars_of(text.as_str());
                let out = substitute_chars(&chars, lib_name, package_name, pm, manifest);
                let result = string_of(&out);
                return result.as_str().as_bytes_vec();
            },
            None => {},
        }
    }
    copy_bytes(data)
}

impl Template {
    /// Substitutes the manifest's variables, then the library name, the
    /// package name, the run command and the separator into `content`.
    pub fn replace_vars(
        content: &str,
        lib_name: &str,
        package_name: &str,
        pkg_manager: PackageManager,
        manifest: Manifest,
    ) -> (r: String)
        ensures
            r@ == substituted(content@, lib_name@, package_name@, pkg_manager, manifest@),
    {
        let out = substitute_chars(&chars_of(content), &chars_of(lib_name), &chars_of(package_name), pkg_manager, &manifest);
        string_of(&out)
    }
}

/// The bytes written for a file whose output name is `name`; bytes that are
/// not UTF-8 text are written unchanged, whatever the name.
pub fn file_bytes(
    name: &str,
    data: &Vec<u8>,
    package_name: &str,
    pkg_manager: PackageManager,
    manifest: &Manifest,
) -> (r: Vec<u8>)
    ensures
        r@ == file_content(name@, data@, package_name@, pkg_manager, manifest@),
        !valid_utf8(data@) ==> r@ == data@,
{
    let pkg = chars_of(package_name);
    let lib = lib_name_chars(&pkg);
    content_chars(&chars_of(name), data, &lib, &pkg, pkg_manager, manifest)
}

fn entry_write_exec(
    entry: &Asset,
    zone: &Vec<char>,
    pm: PackageManager,
    package_name: &Vec<char>,
    lib_name: &Vec<char>,
    alpha: bool,
    mobile: bool,
    manifest: &Manifest,
) -> (r: Option<FileWrite>)
    requires
        lib_name@ == lib_name_of(package_name@),
    ensures
        match r {
            Some(w) => entry_write(asset_view(*entry), zone@, pm, package_name@, alpha, mobile, manifest@)
                == Some(write_view(w)),
            None => entry_write(asset_view(*entry), zone@, pm, package_name@, alpha, mobile, manifest@) is None,
        },
{
    let path = chars_of(entry.path.as_str());
    match find_char_exec(&path, '/', 0) {
        None => None,
        Some(i) => {
            if !same_chars(&sub_chars(&path, 0, i), zone) {
                return None;
            }
            let rel = sub_chars(&path, i + 1, path.len());
            let (dir, base) = match rfind_char_exec(&rel, '/') {
                Some(j) => (sub_chars(&rel, 0, j + 1), sub_chars(&rel, j + 1, rel.len())),
                None => (Vec::new(), sub_chars(&rel, 0, rel.len())),
            };
            assert(rel@.subrange(0, rel@.len() as int) =~= rel@);
            assert(dir@ == dir_of(rel@));
            assert(base@ == base_of(rel@));
            match resolve_chars(&base, pm, alpha, mobile) {
                None => None,
                Some(name) => {
                    let data = content_chars(&name, &entry.data, lib_name, package_name, pm, manifest);
                    let out_path = concat(&dir, &name);
                    Some(FileWrite { path: string_of(&out_path), data, append: false })
                },
            }
        },
    }
}

fn zone_pass(
    store: &Vec<Asset>,
    zone: &Vec<char>,
    pm: PackageManager,
    package_name: &Vec<char>,
    lib_name: &Vec<char>,
    alpha: bool,
    mobile: bool,
    manifest: &Manifest,
    out: &mut Vec<FileWrite>,
)
    requires
        lib_name@ == lib_name_of(package_name@),
    ensures
        final(out)@.map_values(|w: FileWrite| write_view(w)) == old(out)@.map_values(|w: FileWrite| write_view(w))
            + zone_writes(store_view(store@), store@.len() as nat, zone@, pm, package_name@, alpha, mobile, manifest@),
{
    let ghost sv = store_view(store@);
    let ghost start = old(out)@.map_values(|w: FileWrite| write_view(w));
    let mut i: usize = 0;
    assert(start + zone_writes(sv, 0, zone@, pm, package_name@, alpha, mobile, manifest@) =~= start);
    while i < store.len()
        invariant
            i <= store@.len(),
            sv == store_view(store@),
            lib_name@ == lib_name_of(package_name@),
            out@.map_values(|w: FileWrite| write_view(w))
                == start + zone_writes(sv, i as nat, zone@, pm, package_name@, alpha, mobile, manifest@),
        decreases store@.len() - i,
    {
        assert(sv[i as int] == asset_view(store@[i as int]));
        let ghost before = out@;
        match entry_write_exec(&store[i], zone, pm, package_name, lib_name, alpha, mobile, manifest) {
            Some(w) => {
                let ghost wv = write_view(w);
                out.push(w);
                assert(out@.map_values(|w: FileWrite| write_view(w))
                    =~= before.map_values(|w: FileWrite| write_view(w)).push(wv));
            },
            None => {},
        }
        i += 1;
    }
}

proof fn lemma_extra_error_sticks(
    store: Seq<(Seq<char>, Seq<u8>)>,
    files: Seq<(Seq<char>, Seq<char>)>,
    n: nat,
    k: nat,
)
    requires
        n <= k <= files.len(),
        extra_writes(store, files, n) is Err,
    ensures
        extra_writes(store, files, k) == extra_writes(store, files, n),
    decreases k,
{
    if k > n {
        lemma_extra_error_sticks(store, files, n, (k - 1) as nat);
    }
}

/// Appends the writes of the extra files; on a missing asset, returns its path.
fn extra_pass(
    store: &Vec<Asset>,
    files: &Vec<(Vec<char>, Vec<char>)>,
    out: &mut Vec<FileWrite>,
) -> (r: Option<Vec<char>>)
    ensures
        ({
            let fv = files@.map_values(|p: (Vec<char>, Vec<char>)| pair_view(p));
            match r {
                None => extra_writes(store_view(store@), fv, fv.len()) matches Ok(ws)
                    && final(out)@.map_values(|w: FileWrite| write_view(w))
                        == old(out)@.map_values(|w: FileWrite| write_view(w)) + ws,
                Some(p) => extra_writes(store_view(store@), fv, fv.len()) == Err::<Seq<WriteModel>, Seq<char>>(p@),
            }
        }),
{
    let ghost sv = store_view(store@);
    let ghost fv = files@.map_values(|p: (Vec<char>, Vec<char>)| pair_view(p));
    let ghost start = old(out)@.map_values(|w: FileWrite| write_view(w));
    let prefix = chars_of("_assets_/");
    let mut i: usize = 0;
    assert(start + seq![] =~= start);
    while i < files.len()
        invariant
            i <= files@.len(),
            sv == store_view(store@),
            fv == files@.map_values(|p: (Vec<char>, Vec<char>)| pair_view(p)),
            prefix@ == "_assets_/"@,
            extra_writes(sv, fv, i as nat) matches Ok(ws)
                && out@.map_values(|w: FileWrite| write_view(w)) == start + ws,
        decreases files@.len() - i,
    {
        let key = concat(&prefix, &files[i].0);
        assert(fv[i as int] == pair_view(files@[i as int]));
        match lookup_asset(store, &key) {
            None => {
                proof {
                    lemma_extra_error_sticks(sv, fv, (i + 1) as nat, fv.len());
                }
                return Some(key);
            },
            Some(data) => {
                let ghost before = out@;
                let dest = string_of(&files[i].1);
                let w = FileWrite { path: dest, data, append: true };
                let ghost wv = write_view(w);
                out.push(w);
                assert(out@.map_values(|w: FileWrite| write_view(w))
                    =~= before.map_values(|w: FileWrite| write_view(w)).push(wv));
            },
        }
        i += 1;
    }
    None
}

impl Template {
    /// Plans a render of the template from `store`: every write, in the order
    /// it is to be performed, or the error that stops the render.
    pub fn render(
        &self,
        store: &Vec<Asset>,
        pkg_manager: PackageManager,
        package_name: &str,
        alpha: bool,
        mobile: bool,
    ) -> (r: Result<Vec<FileWrite>, RenderError>)
        ensures
            match r {
                Ok(ws) => rendered(*self, store_view(store@), pkg_manager, package_name@, alpha, mobile)
                    == Ok::<Seq<WriteModel>, RenderErrorModel>(ws@.map_values(|w: FileWrite| write_view(w))),
                Err(e) => rendered(*self, store_view(store@), pkg_manager, package_name@, alpha, mobile)
                    == Err::<Seq<WriteModel>, RenderErrorModel>(error_view(e)),
            },
    {
        let zone = concat(&chars_of("fragment-"), &chars_of(self.id()));
        let marker = concat(&zone, &chars_of("/_cta_manifest_"));
        let bytes = match lookup_asset(store, &marker) {
            Some(b) => b,
            None => {
                return Err(RenderError::AssetNotFound(string_of(&marker)));
            },
        };
        let text = match decode_text(&bytes) {
            Some(t) => t,
            None => {
                return Err(RenderError::ManifestNotText);
            },
        };
        let manifest = match Manifest::parse(text.as_str(), mobile) {
            Ok(m) => m,
            Err(e) => {
                return Err(RenderError::ManifestParse(e.line));
            },
        };
        let pkg = chars_of(package_name);
        let lib = lib_name_chars(&pkg);
        let mut out: Vec<FileWrite> = Vec::new();
        let ghost empty = out@.map_values(|w: FileWrite| write_view(w));
        assert(empty =~= Seq::<WriteModel>::empty());
        zone_pass(store, &chars_of("_base_"), pkg_manager, &pkg, &lib, alpha, mobile, &manifest, &mut out);
        zone_pass(store, &zone, pkg_manager, &pkg, &lib, alpha, mobile, &manifest, &mut out);
        match extra_pass(store, manifest.files(), &mut out) {
            Some(p) => Err(RenderError::AssetNotFound(string_of(&p))),
            None => Ok(out),
        }
    }
}

} // verus!
