use vstd::prelude::*;

use vstd::utf8::{decode_utf8, valid_utf8};

use crate::manifest::parsed;
use crate::render::{entry_write, extra_writes, lookup, marker_path, rendered, zone_name, zone_writes, WriteModel};
use crate::template::Template;
use crate::package_manager::PackageManager;
use crate::manifest::ManifestModel;

verus! {

/// The file tree after the writes `ws`, in order, starting from `fs`: an
/// overwrite replaces a file's bytes, an append adds to them (creating the file).
pub open spec fn applied(fs: Map<Seq<char>, Seq<u8>>, ws: Seq<WriteModel>) -> Map<Seq<char>, Seq<u8>>
    decreases ws.len(),
{
    if ws.len() == 0 {
        fs
    } else {
        let prev = applied(fs, ws.drop_last());
        let w = ws.last();
        if w.append && prev.dom().contains(w.path) {
            prev.insert(w.path, prev[w.path] + w.data)
        } else {
            prev.insert(w.path, w.data)
        }
    }
}

/// An overwrite that no later write touches decides the file's bytes.
pub proof fn lemma_last_overwrite_wins(fs: Map<Seq<char>, Seq<u8>>, ws: Seq<WriteModel>, k: int)
    requires
        0 <= k < ws.len(),
        !ws[k].append,
        forall|j: int| k < j < ws.len() ==> (#[trigger] ws[j]).path != ws[k].path,
    ensures
        applied(fs, ws).dom().contains(ws[k].path),
        applied(fs, ws)[ws[k].path] == ws[k].data,
    decreases ws.len(),
{
    if k < ws.len() - 1 {
        let init = ws.drop_last();
        assert(forall|j: int| k < j < init.len() ==> init[j] == ws[j]);
        lemma_last_overwrite_wins(fs, init, k);
        assert(ws.last() == ws[ws.len() - 1]);
    }
}

/// Two appends to a file that did not exist before them, and that no later
/// write touches, leave the concatenation of their bytes.
pub proof fn lemma_two_appends_concatenate(fs: Map<Seq<char>, Seq<u8>>, ws: Seq<WriteModel>, k: int)
    requires
        0 <= k && k + 1 < ws.len(),
        ws[k].append && ws[k + 1].append,
        ws[k].path == ws[k + 1].path,
        !applied(fs, ws.subrange(0, k)).dom().contains(ws[k].path),
        forall|j: int| k + 1 < j < ws.len() ==> (#[trigger] ws[j]).path != ws[k].path,
    ensures
        applied(fs, ws).dom().contains(ws[k].path),
        applied(fs, ws)[ws[k].path] == ws[k].data + ws[k + 1].data,
    decreases ws.len(),
{
    let p = ws[k].path;
    if k + 2 < ws.len() {
        let init = ws.drop_last();
        assert(init.subrange(0, k) =~= ws.subrange(0, k));
        assert(forall|j: int| k + 1 < j < init.len() ==> init[j] == ws[j]);
        lemma_two_appends_concatenate(fs, init, k);
        assert(ws.last() == ws[ws.len() - 1]);
        assert(ws.last().path != p);
    } else {
        let one = ws.drop_last();
        assert(one.drop_last() =~= ws.subrange(0, k));
        assert(one.last() == ws[k]);
        assert(ws.last() == ws[k + 1]);
        let before = applied(fs, ws.subrange(0, k));
        assert(applied(fs, one) == before.insert(p, ws[k].data));
        assert(applied(fs, one).dom().contains(p));
        assert(applied(fs, one)[p] == ws[k].data);
    }
}

/// The writes of a zone pass all overwrite.
pub proof fn lemma_zone_writes_overwrite(
    store: Seq<(Seq<char>, Seq<u8>)>,
    n: nat,
    zone: Seq<char>,
    pm: PackageManager,
    package_name: Seq<char>,
    alpha: bool,
    mobile: bool,
    m: ManifestModel,
)
    ensures
        forall|j: int| 0 <= j < zone_writes(store, n, zone, pm, package_name, alpha, mobile, m).len()
            ==> !(#[trigger] zone_writes(store, n, zone, pm, package_name, alpha, mobile, m)[j]).append,
    decreases n,
{
    if n > 0 && n <= store.len() {
        lemma_zone_writes_overwrite(store, (n - 1) as nat, zone, pm, package_name, alpha, mobile, m);
        let prev = zone_writes(store, (n - 1) as nat, zone, pm, package_name, alpha, mobile, m);
        let cur = zone_writes(store, n, zone, pm, package_name, alpha, mobile, m);
        match entry_write(store[n - 1], zone, pm, package_name, alpha, mobile, m) {
            Some(w) => {
                assert(!w.append);
                assert(cur == prev.push(w));
                assert forall|j: int| 0 <= j < cur.len() implies !(#[trigger] cur[j]).append by {
                    if j < prev.len() {
                        assert(cur[j] == prev[j]);
                    }
                }
            },
            None => {},
        }
    }
}

/// The extra-file writes append, one for each declared pair in order, each
/// with the bytes of its asset.
pub proof fn lemma_extra_writes_shape(
    store: Seq<(Seq<char>, Seq<u8>)>,
    files: Seq<(Seq<char>, Seq<char>)>,
    n: nat,
)
    requires
        n <= files.len(),
        extra_writes(store, files, n) is Ok,
    ensures
        ({
            let ws = extra_writes(store, files, n)->Ok_0;
            &&& ws.len() == n
            &&& forall|j: int| 0 <= j < n ==> {
                &&& (#[trigger] ws[j]).append
                &&& ws[j].path == files[j].1
                &&& lookup(store, "_assets_/"@ + files[j].0) == Some(ws[j].data)
            }
        }),
    decreases n,
{
    if n > 0 {
        lemma_extra_writes_shape(store, files, (n - 1) as nat);
    }
}

/// A file that the template's zone writes replaces the base zone's file at the
/// same output path, since the template pass comes after the base pass: after
/// the writes of the two passes, in that order, the file holds the template
/// entry's bytes, provided no later write of the template pass has that path.
pub proof fn lemma_template_replaces_base(
    fs: Map<Seq<char>, Seq<u8>>,
    store: Seq<(Seq<char>, Seq<u8>)>,
    t: Template,
    pm: PackageManager,
    package_name: Seq<char>,
    alpha: bool,
    mobile: bool,
    m: ManifestModel,
    i: int,
    k: int,
)
    requires
        ({
            let base = zone_writes(store, store.len(), "_base_"@, pm, package_name, alpha, mobile, m);
            let templ = zone_writes(store, store.len(), zone_name(t), pm, package_name, alpha, mobile, m);
            &&& 0 <= i < base.len()
            &&& 0 <= k < templ.len()
            &&& base[i].path == templ[k].path
            &&& forall|j: int| k < j < templ.len() ==> (#[trigger] templ[j]).path != templ[k].path
        }),
    ensures
        ({
            let base = zone_writes(store, store.len(), "_base_"@, pm, package_name, alpha, mobile, m);
            let templ = zone_writes(store, store.len(), zone_name(t), pm, package_name, alpha, mobile, m);
            applied(fs, base + templ)[base[i].path] == templ[k].data
        }),
{
    let base = zone_writes(store, store.len(), "_base_"@, pm, package_name, alpha, mobile, m);
    let templ = zone_writes(store, store.len(), zone_name(t), pm, package_name, alpha, mobile, m);
    lemma_zone_writes_overwrite(store, store.len(), zone_name(t), pm, package_name, alpha, mobile, m);
    let ws = base + templ;
    let kk = base.len() + k;
    assert(ws[kk] == templ[k]);
    assert forall|j: int| kk < j < ws.len() implies (#[trigger] ws[j]).path != ws[kk].path by {
        assert(ws[j] == templ[j - base.len()]);
    }
    lemma_last_overwrite_wins(fs, ws, kk);
}

/// Two consecutive extra files with the same destination, which no other
/// extra file names and which the earlier writes did not create, end up as
/// the concatenation of their assets' bytes, in declaration order.
pub proof fn lemma_extra_files_concatenate(
    fs: Map<Seq<char>, Seq<u8>>,
    earlier: Seq<WriteModel>,
    store: Seq<(Seq<char>, Seq<u8>)>,
    files: Seq<(Seq<char>, Seq<char>)>,
    i: int,
)
    requires
        extra_writes(store, files, files.len()) is Ok,
        0 <= i && i + 1 < files.len(),
        files[i].1 == files[i + 1].1,
        forall|j: int| 0 <= j < files.len() && j != i && j != i + 1 ==> (#[trigger] files[j]).1 != files[i].1,
        !applied(fs, earlier).dom().contains(files[i].1),
    ensures
        applied(fs, earlier + extra_writes(store, files, files.len())->Ok_0)[files[i].1]
            == lookup(store, "_assets_/"@ + files[i].0)->Some_0 + lookup(store, "_assets_/"@ + files[i + 1].0)->Some_0,
{
    let extra = extra_writes(store, files, files.len())->Ok_0;
    lemma_extra_writes_shape(store, files, files.len());
    let ws = earlier + extra;
    let k = earlier.len() + i;
    assert(ws[k] == extra[i]);
    assert(ws[k + 1] == extra[i + 1]);
    assert forall|j: int| k + 1 < j < ws.len() implies (#[trigger] ws[j]).path != ws[k].path by {
        assert(ws[j] == extra[j - earlier.len()]);
        assert(files[j - earlier.len()].1 != files[i].1);
    }
    assert(ws.subrange(0, k) =~= earlier + extra.subrange(0, i));
    lemma_no_write_keeps_absent(fs, earlier, extra.subrange(0, i), files[i].1);
    lemma_two_appends_concatenate(fs, ws, k);
}

/// Writes to other paths leave a path absent.
proof fn lemma_no_write_keeps_absent(
    fs: Map<Seq<char>, Seq<u8>>,
    earlier: Seq<WriteModel>,
    more: Seq<WriteModel>,
    p: Seq<char>,
)
    requires
        !applied(fs, earlier).dom().contains(p),
        forall|j: int| 0 <= j < more.len() ==> (#[trigger] more[j]).path != p,
    ensures
        !applied(fs, earlier + more).dom().contains(p),
    decreases more.len(),
{
    if more.len() == 0 {
        assert(earlier + more =~= earlier);
    } else {
        let init = more.drop_last();
        assert((earlier + more).drop_last() =~= earlier + init);
        assert(forall|j: int| 0 <= j < init.len() ==> init[j] == more[j]);
        lemma_no_write_keeps_absent(fs, earlier, init, p);
        assert((earlier + more).last() == more[more.len() - 1]);
    }
}

/// Each write of a zone pass comes from an entry of the store.
proof fn lemma_zone_writes_from_entries(
    store: Seq<(Seq<char>, Seq<u8>)>,
    n: nat,
    zone: Seq<char>,
    pm: PackageManager,
    package_name: Seq<char>,
    alpha: bool,
    mobile: bool,
    m: ManifestModel,
)
    requires
        n <= store.len(),
    ensures
        forall|j: int| 0 <= j < zone_writes(store, n, zone, pm, package_name, alpha, mobile, m).len()
            ==> exists|i: int| 0 <= i < n && entry_write(store[i], zone, pm, package_name, alpha, mobile, m)
                == Some(#[trigger] zone_writes(store, n, zone, pm, package_name, alpha, mobile, m)[j]),
    decreases n,
{
    if n > 0 {
        lemma_zone_writes_from_entries(store, (n - 1) as nat, zone, pm, package_name, alpha, mobile, m);
        let prev = zone_writes(store, (n - 1) as nat, zone, pm, package_name, alpha, mobile, m);
        let cur = zone_writes(store, n, zone, pm, package_name, alpha, mobile, m);
        assert forall|j: int| 0 <= j < cur.len() implies exists|i: int| 0 <= i < n
            && entry_write(store[i], zone, pm, package_name, alpha, mobile, m) == Some(#[trigger] cur[j]) by {
            if j < prev.len() {
                assert(cur[j] == prev[j]);
                let i = choose|i: int| 0 <= i < n - 1
                    && entry_write(store[i], zone, pm, package_name, alpha, mobile, m) == Some(prev[j]);
                assert(entry_write(store[i], zone, pm, package_name, alpha, mobile, m) == Some(cur[j]));
            } else {
                assert(entry_write(store[n - 1], zone, pm, package_name, alpha, mobile, m) == Some(cur[j]));
            }
        }
    }
}

/// Where the write of entry `idx` stands in its zone pass; every later write
/// of the pass comes from a later entry.
proof fn lemma_entry_write_position(
    store: Seq<(Seq<char>, Seq<u8>)>,
    n: nat,
    zone: Seq<char>,
    pm: PackageManager,
    package_name: Seq<char>,
    alpha: bool,
    mobile: bool,
    m: ManifestModel,
    idx: int,
) -> (k: int)
    requires
        0 <= idx < n <= store.len(),
        entry_write(store[idx], zone, pm, package_name, alpha, mobile, m) is Some,
    ensures
        ({
            let zw = zone_writes(store, n, zone, pm, package_name, alpha, mobile, m);
            &&& 0 <= k < zw.len()
            &&& Some(zw[k]) == entry_write(store[idx], zone, pm, package_name, alpha, mobile, m)
            &&& forall|j: int| k < j < zw.len() ==> exists|i: int| idx < i < n
                && entry_write(store[i], zone, pm, package_name, alpha, mobile, m) == Some(#[trigger] zw[j])
        }),
    decreases n,
{
    let prev = zone_writes(store, (n - 1) as nat, zone, pm, package_name, alpha, mobile, m);
    let cur = zone_writes(store, n, zone, pm, package_name, alpha, mobile, m);
    if idx == n - 1 {
        let k = prev.len() as int;
        assert(cur == prev.push(entry_write(store[idx], zone, pm, package_name, alpha, mobile, m)->Some_0));
        k
    } else {
        let k = lemma_entry_write_position(store, (n - 1) as nat, zone, pm, package_name, alpha, mobile, m, idx);
        assert forall|j: int| k < j < cur.len() implies exists|i: int| idx < i < n
            && entry_write(store[i], zone, pm, package_name, alpha, mobile, m) == Some(#[trigger] cur[j]) by {
            if j < prev.len() {
                assert(cur[j] == prev[j]);
                let i = choose|i: int| idx < i < n - 1
                    && entry_write(store[i], zone, pm, package_name, alpha, mobile, m) == Some(prev[j]);
                assert(entry_write(store[i], zone, pm, package_name, alpha, mobile, m) == Some(cur[j]));
            } else {
                assert(entry_write(store[n - 1], zone, pm, package_name, alpha, mobile, m) == Some(cur[j]));
            }
        }
        assert(cur[k] == prev[k]);
        k
    }
}

/// The manifest that a render of `t` reads from its marker file.
pub open spec fn render_manifest(t: Template, store: Seq<(Seq<char>, Seq<u8>)>, mobile: bool) -> ManifestModel {
    parsed(decode_utf8(lookup(store, marker_path(t))->Some_0), mobile)->Ok_0
}

/// Whether entry `i`, in the pass over `zone`, writes the output path `p`.
pub open spec fn entry_targets(
    entry: (Seq<char>, Seq<u8>),
    zone: Seq<char>,
    pm: PackageManager,
    package_name: Seq<char>,
    alpha: bool,
    mobile: bool,
    m: ManifestModel,
    p: Seq<char>,
) -> bool {
    entry_write(entry, zone, pm, package_name, alpha, mobile, m) matches Some(w) && w.path == p
}

proof fn lemma_rendered_parts(
    t: Template,
    store: Seq<(Seq<char>, Seq<u8>)>,
    pm: PackageManager,
    package_name: Seq<char>,
    alpha: bool,
    mobile: bool,
)
    requires
        rendered(t, store, pm, package_name, alpha, mobile) is Ok,
    ensures
        ({
            let m = render_manifest(t, store, mobile);
            &&& extra_writes(store, m.files, m.files.len()) is Ok
            &&& rendered(t, store, pm, package_name, alpha, mobile)->Ok_0
                == zone_writes(store, store.len(), "_base_"@, pm, package_name, alpha, mobile, m)
                    + zone_writes(store, store.len(), zone_name(t), pm, package_name, alpha, mobile, m)
                    + extra_writes(store, m.files, m.files.len())->Ok_0
        }),
{
}

/// A store entry of the base zone or of the template's zone that the render
/// writes (its name passes the conditional gate) ends up in the file tree
/// with the bytes that its write carries: its name with any `%(..)%` prefix
/// resolved, its content substituted when the name is allow-listed and the
/// bytes are text. This holds when nothing later in the render writes the
/// same path: no later entry of its zone, no entry of the template's zone when
/// it comes from the base zone, and no extra file of the manifest.
#[verifier::rlimit(40)]
pub proof fn lemma_render_writes_entry(
    fs: Map<Seq<char>, Seq<u8>>,
    t: Template,
    store: Seq<(Seq<char>, Seq<u8>)>,
    pm: PackageManager,
    package_name: Seq<char>,
    alpha: bool,
    mobile: bool,
    from_base: bool,
    idx: int,
)
    requires
        rendered(t, store, pm, package_name, alpha, mobile) is Ok,
        0 <= idx < store.len(),
        ({
            let m = render_manifest(t, store, mobile);
            let zone = if from_base { "_base_"@ } else { zone_name(t) };
            entry_write(store[idx], zone, pm, package_name, alpha, mobile, m) matches Some(w) && {
                &&& forall|i: int| idx < i < store.len()
                    ==> !entry_targets(#[trigger] store[i], zone, pm, package_name, alpha, mobile, m, w.path)
                &&& from_base ==> forall|i: int| 0 <= i < store.len()
                    ==> !entry_targets(#[trigger] store[i], zone_name(t), pm, package_name, alpha, mobile, m, w.path)
                &&& forall|j: int| 0 <= j < m.files.len() ==> (#[trigger] m.files[j]).1 != w.path
            }
        }),
    ensures
        ({
            let m = render_manifest(t, store, mobile);
            let zone = if from_base { "_base_"@ } else { zone_name(t) };
            let w = entry_write(store[idx], zone, pm, package_name, alpha, mobile, m)->Some_0;
            let tree = applied(fs, rendered(t, store, pm, package_name, alpha, mobile)->Ok_0);
            tree.dom().contains(w.path) && tree[w.path] == w.data
        }),
{
    let m = render_manifest(t, store, mobile);
    let zone = if from_base { "_base_"@ } else { zone_name(t) };
    let w = entry_write(store[idx], zone, pm, package_name, alpha, mobile, m)->Some_0;
    let p = w.path;
    lemma_rendered_parts(t, store, pm, package_name, alpha, mobile);
    let base = zone_writes(store, store.len(), "_base_"@, pm, package_name, alpha, mobile, m);
    let templ = zone_writes(store, store.len(), zone_name(t), pm, package_name, alpha, mobile, m);
    let extra = extra_writes(store, m.files, m.files.len())->Ok_0;
    let ws = base + templ + extra;
    lemma_extra_writes_shape(store, m.files, m.files.len());
    lemma_zone_writes_from_entries(store, store.len(), zone_name(t), pm, package_name, alpha, mobile, m);
    let k = lemma_entry_write_position(store, store.len(), zone, pm, package_name, alpha, mobile, m, idx);
    let zw = zone_writes(store, store.len(), zone, pm, package_name, alpha, mobile, m);
    let off: int = if from_base { 0 } else { base.len() as int };
    let kk = off + k;
    assert(ws[kk] == zw[k]);
    assert(!w.append);
    assert forall|j: int| kk < j < ws.len() implies (#[trigger] ws[j]).path != p by {
        if j < off + zw.len() {
            assert(ws[j] == zw[j - off]);
            let i = choose|i: int| idx < i < store.len()
                && entry_write(store[i], zone, pm, package_name, alpha, mobile, m) == Some(zw[j - off]);
            assert(!entry_targets(store[i], zone, pm, package_name, alpha, mobile, m, p));
        } else if j < base.len() + templ.len() {
            assert(from_base);
            assert(ws[j] == templ[j - base.len()]);
            let i = choose|i: int| 0 <= i < store.len()
                && entry_write(store[i], zone_name(t), pm, package_name, alpha, mobile, m) == Some(templ[j - base.len()]);
            assert(!entry_targets(store[i], zone_name(t), pm, package_name, alpha, mobile, m, p));
        } else {
            let e = j - base.len() - templ.len();
            assert(ws[j] == extra[e]);
            assert(m.files[e].1 != p);
        }
    }
    lemma_last_overwrite_wins(fs, ws, kk);
}

/// An entry whose bytes are not UTF-8 text is written unchanged, whatever its
/// name, under the same conditions as any written entry.
pub proof fn lemma_render_copies_binary_entry(
    fs: Map<Seq<char>, Seq<u8>>,
    t: Template,
    store: Seq<(Seq<char>, Seq<u8>)>,
    pm: PackageManager,
    package_name: Seq<char>,
    alpha: bool,
    mobile: bool,
    from_base: bool,
    idx: int,
)
    requires
        rendered(t, store, pm, package_name, alpha, mobile) is Ok,
        0 <= idx < store.len(),
        !valid_utf8(store[idx].1),
        ({
            let m = render_manifest(t, store, mobile);
            let zone = if from_base { "_base_"@ } else { zone_name(t) };
            entry_write(store[idx], zone, pm, package_name, alpha, mobile, m) matches Some(w) && {
                &&& forall|i: int| idx < i < store.len()
                    ==> !entry_targets(#[trigger] store[i], zone, pm, package_name, alpha, mobile, m, w.path)
                &&& from_base ==> forall|i: int| 0 <= i < store.len()
                    ==> !entry_targets(#[trigger] store[i], zone_name(t), pm, package_name, alpha, mobile, m, w.path)
                &&& forall|j: int| 0 <= j < m.files.len() ==> (#[trigger] m.files[j]).1 != w.path
            }
        }),
    ensures
        ({
            let m = render_manifest(t, store, mobile);
            let zone = if from_base { "_base_"@ } else { zone_name(t) };
            let w = entry_write(store[idx], zone, pm, package_name, alpha, mobile, m)->Some_0;
            applied(fs, rendered(t, store, pm, package_name, alpha, mobile)->Ok_0)[w.path] == store[idx].1
        }),
{
    lemma_render_writes_entry(fs, t, store, pm, package_name, alpha, mobile, from_base, idx);
}

/// Two consecutive extra files of the manifest with the same destination,
/// which no other extra file and no zone entry writes and which did not exist
/// before, hold the two assets' bytes concatenated in declaration order after
/// the render.
#[verifier::rlimit(40)]
pub proof fn lemma_render_concatenates_extra_files(
    fs: Map<Seq<char>, Seq<u8>>,
    t: Template,
    store: Seq<(Seq<char>, Seq<u8>)>,
    pm: PackageManager,
    package_name: Seq<char>,
    alpha: bool,
    mobile: bool,
    i: int,
)
    requires
        rendered(t, store, pm, package_name, alpha, mobile) is Ok,
        ({
            let m = render_manifest(t, store, mobile);
            let p = m.files[i].1;
            &&& 0 <= i && i + 1 < m.files.len()
            &&& m.files[i + 1].1 == p
            &&& forall|j: int| 0 <= j < m.files.len() && j != i && j != i + 1 ==> (#[trigger] m.files[j]).1 != p
            &&& !fs.dom().contains(p)
            &&& forall|e: int| 0 <= e < store.len()
                ==> !entry_targets(#[trigger] store[e], "_base_"@, pm, package_name, alpha, mobile, m, p)
            &&& forall|e: int| 0 <= e < store.len()
                ==> !entry_targets(#[trigger] store[e], zone_name(t), pm, package_name, alpha, mobile, m, p)
        }),
    ensures
        ({
            let m = render_manifest(t, store, mobile);
            applied(fs, rendered(t, store, pm, package_name, alpha, mobile)->Ok_0)[m.files[i].1]
                == lookup(store, "_assets_/"@ + m.files[i].0)->Some_0
                    + lookup(store, "_assets_/"@ + m.files[i + 1].0)->Some_0
        }),
{
    let m = render_manifest(t, store, mobile);
    let p = m.files[i].1;
    lemma_rendered_parts(t, store, pm, package_name, alpha, mobile);
    let base = zone_writes(store, store.len(), "_base_"@, pm, package_name, alpha, mobile, m);
    let templ = zone_writes(store, store.len(), zone_name(t), pm, package_name, alpha, mobile, m);
    lemma_zone_writes_from_entries(store, store.len(), "_base_"@, pm, package_name, alpha, mobile, m);
    lemma_zone_writes_from_entries(store, store.len(), zone_name(t), pm, package_name, alpha, mobile, m);
    let zones = base + templ;
    assert forall|j: int| 0 <= j < zones.len() implies (#[trigger] zones[j]).path != p by {
        if j < base.len() {
            assert(zones[j] == base[j]);
            let e = choose|e: int| 0 <= e < store.len()
                && entry_write(store[e], "_base_"@, pm, package_name, alpha, mobile, m) == Some(base[j]);
            assert(!entry_targets(store[e], "_base_"@, pm, package_name, alpha, mobile, m, p));
        } else {
            assert(zones[j] == templ[j - base.len()]);
            let e = choose|e: int| 0 <= e < store.len()
                && entry_write(store[e], zone_name(t), pm, package_name, alpha, mobile, m) == Some(templ[j - base.len()]);
            assert(!entry_targets(store[e], zone_name(t), pm, package_name, alpha, mobile, m, p));
        }
    }
    assert(seq![] + zones =~= zones);
    assert(applied(fs, Seq::<WriteModel>::empty()) == fs);
    lemma_no_write_keeps_absent(fs, seq![], zones, p);
    lemma_extra_files_concatenate(fs, zones, store, m.files, i);
}

proof fn lemma_lookup_remove(store: Seq<(Seq<char>, Seq<u8>)>, idx: int, key: Seq<char>)
    requires
        0 <= idx < store.len(),
        store[idx].0 != key,
    ensures
        lookup(store.remove(idx), key) == lookup(store, key),
    decreases store.len(),
{
    if idx == 0 {
        assert(store.remove(0) =~= store.drop_first());
    } else {
        let r = store.remove(idx);
        assert(r[0] == store[0]);
        assert(r.drop_first() =~= store.drop_first().remove(idx - 1));
        lemma_lookup_remove(store.drop_first(), idx - 1, key);
    }
}

proof fn lemma_zone_writes_prefix(
    s1: Seq<(Seq<char>, Seq<u8>)>,
    s2: Seq<(Seq<char>, Seq<u8>)>,
    n: nat,
    zone: Seq<char>,
    pm: PackageManager,
    package_name: Seq<char>,
    alpha: bool,
    mobile: bool,
    m: ManifestModel,
)
    requires
        n <= s1.len(),
        n <= s2.len(),
        forall|i: int| 0 <= i < n ==> s1[i] == s2[i],
    ensures
        zone_writes(s1, n, zone, pm, package_name, alpha, mobile, m)
            == zone_writes(s2, n, zone, pm, package_name, alpha, mobile, m),
    decreases n,
{
    if n > 0 {
        lemma_zone_writes_prefix(s1, s2, (n - 1) as nat, zone, pm, package_name, alpha, mobile, m);
    }
}

proof fn lemma_zone_writes_remove(
    store: Seq<(Seq<char>, Seq<u8>)>,
    n: nat,
    idx: int,
    zone: Seq<char>,
    pm: PackageManager,
    package_name: Seq<char>,
    alpha: bool,
    mobile: bool,
    m: ManifestModel,
)
    requires
        0 <= idx < n <= store.len(),
        entry_write(store[idx], zone, pm, package_name, alpha, mobile, m) is None,
    ensures
        zone_writes(store.remove(idx), (n - 1) as nat, zone, pm, package_name, alpha, mobile, m)
            == zone_writes(store, n, zone, pm, package_name, alpha, mobile, m),
    decreases n,
{
    let r = store.remove(idx);
    if n - 1 == idx {
        lemma_zone_writes_prefix(r, store, (n - 1) as nat, zone, pm, package_name, alpha, mobile, m);
    } else {
        lemma_zone_writes_remove(store, (n - 1) as nat, idx, zone, pm, package_name, alpha, mobile, m);
        assert(r[n - 2] == store[n - 1]);
    }
}

proof fn lemma_extra_writes_remove(
    store: Seq<(Seq<char>, Seq<u8>)>,
    files: Seq<(Seq<char>, Seq<char>)>,
    n: nat,
    idx: int,
)
    requires
        0 <= idx < store.len(),
        n <= files.len(),
        forall|j: int| 0 <= j < files.len() ==> store[idx].0 != "_assets_/"@ + (#[trigger] files[j]).0,
    ensures
        extra_writes(store.remove(idx), files, n) == extra_writes(store, files, n),
    decreases n,
{
    if n > 0 {
        lemma_extra_writes_remove(store, files, (n - 1) as nat, idx);
        lemma_lookup_remove(store, idx, "_assets_/"@ + files[n - 1].0);
    }
}

/// An entry that the conditional gate skips in both passes, and that is
/// neither the manifest marker nor an asset the manifest names, changes
/// nothing: the render over the store without it gives the same writes, or
/// the same error.
pub proof fn lemma_render_ignores_skipped_entry(
    t: Template,
    store: Seq<(Seq<char>, Seq<u8>)>,
    pm: PackageManager,
    package_name: Seq<char>,
    alpha: bool,
    mobile: bool,
    idx: int,
)
    requires
        0 <= idx < store.len(),
        store[idx].0 != marker_path(t),
        ({
            let m = render_manifest(t, store, mobile);
            &&& entry_write(store[idx], "_base_"@, pm, package_name, alpha, mobile, m) is None
            &&& entry_write(store[idx], zone_name(t), pm, package_name, alpha, mobile, m) is None
            &&& forall|j: int| 0 <= j < m.files.len() ==> store[idx].0 != "_assets_/"@ + (#[trigger] m.files[j]).0
        }),
    ensures
        rendered(t, store.remove(idx), pm, package_name, alpha, mobile)
            == rendered(t, store, pm, package_name, alpha, mobile),
{
    let r = store.remove(idx);
    let m = render_manifest(t, store, mobile);
    lemma_lookup_remove(store, idx, marker_path(t));
    assert(render_manifest(t, r, mobile) == m);
    lemma_extra_writes_remove(store, m.files, m.files.len(), idx);
    lemma_zone_writes_remove(store, store.len(), idx, "_base_"@, pm, package_name, alpha, mobile, m);
    lemma_zone_writes_remove(store, store.len(), idx, zone_name(t), pm, package_name, alpha, mobile, m);
    assert(r.len() == store.len() - 1);
}

} // verus!
