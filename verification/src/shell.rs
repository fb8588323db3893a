//! The Explorer shell extension's decisions: which registry values it
//! writes and removes, how it asks the viewer for thumbnails and previews,
//! and which viewer executable it runs.

use vstd::prelude::*;

use crate::paths::{joined_path, parent_of, path_join, path_parent};
use crate::text::{decimal, push_decimal, views};

verus! {

/// The class id of the thumbnail provider.
pub open spec fn clsid_thumbnail() -> Seq<char> {
    "{C5D7A75F-95BC-4BD2-9D5D-4DF5C78B68F1}"@
}

/// The class id of the preview handler.
pub open spec fn clsid_preview() -> Seq<char> {
    "{D2251698-70F2-4770-8BA8-4D1EA4C7E7A6}"@
}

/// The shell's interface id under which thumbnail providers register.
pub open spec fn thumbnail_iid() -> Seq<char> {
    "{e357fccd-a995-4576-b01f-234630154e96}"@
}

/// The shell's interface id under which preview handlers register.
pub open spec fn preview_iid() -> Seq<char> {
    "{8895b1c6-b41f-4c1c-a562-0d564250836f}"@
}

/// The file extensions the extension handles.
pub open spec fn extensions() -> Seq<Seq<char>> {
    seq![".usd"@, ".usda"@, ".usdc"@, ".usdz"@]
}

/// A registry value.
pub enum RegistryValue {
    Text(String),
    Dword(u32),
}

/// A value written under a key of the current user's registry.
pub struct RegistryWrite {
    pub key: String,
    pub name: String,
    pub value: RegistryValue,
}

pub enum RegistryValueModel {
    Text(Seq<char>),
    Dword(u32),
}

pub struct RegistryWriteModel {
    pub key: Seq<char>,
    pub name: Seq<char>,
    pub value: RegistryValueModel,
}

pub open spec fn write_view(w: RegistryWrite) -> RegistryWriteModel {
    RegistryWriteModel {
        key: w.key@,
        name: w.name@,
        value: match w.value {
            RegistryValue::Text(t) => RegistryValueModel::Text(t@),
            RegistryValue::Dword(d) => RegistryValueModel::Dword(d),
        },
    }
}

pub open spec fn writes_view(v: Seq<RegistryWrite>) -> Seq<RegistryWriteModel> {
    v.map_values(|w: RegistryWrite| write_view(w))
}

pub open spec fn text_write(key: Seq<char>, name: Seq<char>, value: Seq<char>) -> RegistryWriteModel {
    RegistryWriteModel { key, name, value: RegistryValueModel::Text(value) }
}

/// The key of a class id.
pub open spec fn clsid_key(clsid: Seq<char>) -> Seq<char> {
    "Software\\Classes\\CLSID\\"@ + clsid
}

/// The key under which an extension names its handler for an interface.
pub open spec fn shellex_key(ext: Seq<char>, iid: Seq<char>) -> Seq<char> {
    "Software\\Classes\\"@ + ext + "\\shellex\\"@ + iid
}

/// The values that register a class: its name, its in-process server (the
/// module, apartment threaded) and no process isolation.
pub open spec fn class_writes(clsid: Seq<char>, name: Seq<char>, module: Seq<char>) -> Seq<RegistryWriteModel> {
    let key = clsid_key(clsid);
    let server = key + "\\InProcServer32"@;
    seq![
        text_write(key, Seq::empty(), name),
        text_write(server, Seq::empty(), module),
        text_write(server, "ThreadingModel"@, "Apartment"@),
        RegistryWriteModel { key, name: "DisableProcessIsolation"@, value: RegistryValueModel::Dword(1) },
        RegistryWriteModel { key, name: "DisableLowILProcessIsolation"@, value: RegistryValueModel::Dword(1) },
    ]
}

/// The values that bind each extension to the two handlers.
pub open spec fn extension_writes(exts: Seq<Seq<char>>) -> Seq<RegistryWriteModel>
    decreases exts.len(),
{
    if exts.len() == 0 {
        Seq::empty()
    } else {
        extension_writes(exts.drop_last()) + seq![
            text_write(shellex_key(exts.last(), thumbnail_iid()), Seq::empty(), clsid_thumbnail()),
            text_write(shellex_key(exts.last(), preview_iid()), Seq::empty(), clsid_preview()),
        ]
    }
}

/// Every value that registration writes, in order.
pub open spec fn registration_plan(module: Seq<char>, exe: Seq<char>) -> Seq<RegistryWriteModel> {
    seq![text_write("Software\\PowerUSD\\ShellExtension"@, "PowerUsdExe"@, exe)] + class_writes(
        clsid_thumbnail(),
        "PowerUSD Thumbnail Provider"@,
        module,
    ) + class_writes(clsid_preview(), "PowerUSD Preview Handler"@, module) + extension_writes(extensions())
        + seq![
        text_write(
            "Software\\Microsoft\\Windows\\CurrentVersion\\PreviewHandlers"@,
            clsid_preview(),
            "PowerUSD Preview Handler"@,
        ),
        text_write(
            "Software\\Microsoft\\Windows\\CurrentVersion\\Shell Extensions\\Approved"@,
            clsid_thumbnail(),
            "PowerUSD Thumbnail Provider"@,
        ),
        text_write(
            "Software\\Microsoft\\Windows\\CurrentVersion\\Shell Extensions\\Approved"@,
            clsid_preview(),
            "PowerUSD Preview Handler"@,
        ),
    ]
}

/// The key under which extension `e` names its handler for interface id
/// `iid`, spelled out.
pub open spec fn handler_key(e: Seq<char>, iid: Seq<char>) -> Seq<char> {
    "Software\\Classes\\"@ + e + "\\shellex\\"@ + iid
}

proof fn lemma_shellex_key_parts(e1: Seq<char>, i1: Seq<char>, e2: Seq<char>, i2: Seq<char>)
    requires
        shellex_key(e1, i1) == shellex_key(e2, i2),
        i1.len() == i2.len(),
    ensures
        e1 == e2,
        i1 == i2,
{
    reveal_strlit("Software\\Classes\\");
    reveal_strlit("\\shellex\\");
    let k1 = shellex_key(e1, i1);
    let k2 = shellex_key(e2, i2);
    assert("Software\\Classes\\"@.len() == 17);
    assert("\\shellex\\"@.len() == 9);
    assert(k1.len() == 17 + e1.len() + 9 + i1.len());
    assert(k2.len() == 17 + e2.len() + 9 + i2.len());
    assert(e1.len() == e2.len());
    assert(k1.subrange(17, 17 + e1.len() as int) =~= e1);
    assert(k2.subrange(17, 17 + e2.len() as int) =~= e2);
    assert(k1.skip(k1.len() - i1.len()) =~= i1);
    assert(k2.skip(k2.len() - i2.len()) =~= i2);
}

/// Registration binds every handled extension (`.usd`, `.usda`, `.usdc`,
/// `.usdz`) to both handlers: under the preview-handler interface id
/// `{8895b1c6-b41f-4c1c-a562-0d564250836f}` it writes the preview handler's
/// class id `{D2251698-70F2-4770-8BA8-4D1EA4C7E7A6}`, under the thumbnail
/// interface id `{e357fccd-a995-4576-b01f-234630154e96}` the thumbnail
/// provider's class id `{C5D7A75F-95BC-4BD2-9D5D-4DF5C78B68F1}`; and every
/// value written under either key is that class id.
pub proof fn law_extensions_bind_both_handlers(module: Seq<char>, exe: Seq<char>, e: Seq<char>)
    requires
        e == ".usd"@ || e == ".usda"@ || e == ".usdc"@ || e == ".usdz"@,
    ensures
        ({
            let plan = registration_plan(module, exe);
            let pk = handler_key(e, "{8895b1c6-b41f-4c1c-a562-0d564250836f}"@);
            let tk = handler_key(e, "{e357fccd-a995-4576-b01f-234630154e96}"@);
            let pv = RegistryValueModel::Text("{D2251698-70F2-4770-8BA8-4D1EA4C7E7A6}"@);
            let tv = RegistryValueModel::Text("{C5D7A75F-95BC-4BD2-9D5D-4DF5C78B68F1}"@);
            &&& exists|k: int| 0 <= k < plan.len() && (#[trigger] plan[k]).key == pk && plan[k].value == pv
            &&& exists|k: int| 0 <= k < plan.len() && (#[trigger] plan[k]).key == tk && plan[k].value == tv
            &&& forall|k: int| 0 <= k < plan.len() && (#[trigger] plan[k]).key == pk ==> plan[k].value == pv
            &&& forall|k: int| 0 <= k < plan.len() && (#[trigger] plan[k]).key == tk ==> plan[k].value == tv
        }),
{
    reveal_strlit("Software\\Classes\\");
    reveal_strlit("\\shellex\\");
    reveal_strlit("{8895b1c6-b41f-4c1c-a562-0d564250836f}");
    reveal_strlit("{e357fccd-a995-4576-b01f-234630154e96}");
    reveal_strlit("{D2251698-70F2-4770-8BA8-4D1EA4C7E7A6}");
    reveal_strlit("{C5D7A75F-95BC-4BD2-9D5D-4DF5C78B68F1}");
    reveal_strlit(".usd");
    reveal_strlit(".usda");
    reveal_strlit(".usdc");
    reveal_strlit(".usdz");
    reveal_strlit("Software\\PowerUSD\\ShellExtension");
    reveal_strlit("Software\\Classes\\CLSID\\");
    reveal_strlit("\\InProcServer32");
    reveal_strlit("Software\\Microsoft\\Windows\\CurrentVersion\\PreviewHandlers");
    reveal_strlit("Software\\Microsoft\\Windows\\CurrentVersion\\Shell Extensions\\Approved");
    let plan = registration_plan(module, exe);
    let piid = "{8895b1c6-b41f-4c1c-a562-0d564250836f}"@;
    let tiid = "{e357fccd-a995-4576-b01f-234630154e96}"@;
    let pk = handler_key(e, piid);
    let tk = handler_key(e, tiid);
    let pv = RegistryValueModel::Text("{D2251698-70F2-4770-8BA8-4D1EA4C7E7A6}"@);
    let tv = RegistryValueModel::Text("{C5D7A75F-95BC-4BD2-9D5D-4DF5C78B68F1}"@);
    assert(preview_iid() == piid);
    assert(thumbnail_iid() == tiid);
    assert(pk =~= shellex_key(e, piid));
    assert(tk =~= shellex_key(e, tiid));
    let exts = extensions();
    reveal_with_fuel(extension_writes, 5);
    let ew = extension_writes(exts);
    assert(exts.drop_last() =~= seq![".usd"@, ".usda"@, ".usdc"@]);
    assert(exts.drop_last().drop_last() =~= seq![".usd"@, ".usda"@]);
    assert(exts.drop_last().drop_last().drop_last() =~= seq![".usd"@]);
    assert(exts.drop_last().drop_last().drop_last().drop_last() =~= Seq::<Seq<char>>::empty());
    assert(ew =~= seq![
        text_write(shellex_key(".usd"@, tiid), Seq::empty(), clsid_thumbnail()),
        text_write(shellex_key(".usd"@, piid), Seq::empty(), clsid_preview()),
        text_write(shellex_key(".usda"@, tiid), Seq::empty(), clsid_thumbnail()),
        text_write(shellex_key(".usda"@, piid), Seq::empty(), clsid_preview()),
        text_write(shellex_key(".usdc"@, tiid), Seq::empty(), clsid_thumbnail()),
        text_write(shellex_key(".usdc"@, piid), Seq::empty(), clsid_preview()),
        text_write(shellex_key(".usdz"@, tiid), Seq::empty(), clsid_thumbnail()),
        text_write(shellex_key(".usdz"@, piid), Seq::empty(), clsid_preview()),
    ]);
    let head = seq![text_write("Software\\PowerUSD\\ShellExtension"@, "PowerUsdExe"@, exe)] + class_writes(
        clsid_thumbnail(),
        "PowerUSD Thumbnail Provider"@,
        module,
    ) + class_writes(clsid_preview(), "PowerUSD Preview Handler"@, module);
    assert(head.len() == 11);
    assert(plan.len() == 22);
    assert forall|k: int| 0 <= k < 11 implies (#[trigger] plan[k]).key.len() != pk.len() && plan[k].key.len() != tk.len() by {
        assert(plan[k] == head[k]);
    }
    assert forall|k: int| 19 <= k < 22 implies (#[trigger] plan[k]).key.len() != pk.len() && plan[k].key.len() != tk.len() by {
    }
    assert forall|k: int| 11 <= k < 19 implies (#[trigger] plan[k]) == ew[k - 11] by {}
    assert(tiid[1] != piid[1]);
    assert(tiid != piid);
    assert forall|m: int| 0 <= m < 8 implies (#[trigger] ew[m]).key == shellex_key(
        exts[m / 2],
        if m % 2 == 0 { tiid } else { piid },
    ) && ew[m].value == RegistryValueModel::Text(if m % 2 == 0 { clsid_thumbnail() } else { clsid_preview() }) by {
        if m == 0 {} else if m == 1 {} else if m == 2 {} else if m == 3 {} else if m == 4 {} else if m == 5 {} else if m == 6 {} else {}
    }
    assert forall|k: int| 0 <= k < plan.len() && (#[trigger] plan[k]).key == pk implies plan[k].value == pv by {
        if 11 <= k < 19 {
            let m = k - 11;
            let ext = exts[m / 2];
            let iid = if m % 2 == 0 { tiid } else { piid };
            assert(ew[m].key == shellex_key(ext, iid));
            lemma_shellex_key_parts(ext, iid, e, piid);
        }
    }
    assert forall|k: int| 0 <= k < plan.len() && (#[trigger] plan[k]).key == tk implies plan[k].value == tv by {
        if 11 <= k < 19 {
            let m = k - 11;
            let ext = exts[m / 2];
            let iid = if m % 2 == 0 { tiid } else { piid };
            assert(ew[m].key == shellex_key(ext, iid));
            lemma_shellex_key_parts(ext, iid, e, tiid);
        }
    }
    let base: int = if e == ".usd"@ { 11 } else if e == ".usda"@ { 13 } else if e == ".usdc"@ { 15 } else { 17 };
    assert(plan[base + 1].key == pk && plan[base + 1].value == pv);
    assert(plan[base].key == tk && plan[base].value == tv);
}

/// The keys that unregistration deletes, in order.
pub open spec fn unregistration_plan() -> Seq<Seq<char>> {
    seq![clsid_key(clsid_thumbnail()), clsid_key(clsid_preview())] + seq![
        shellex_key(".usd"@, thumbnail_iid()),
        shellex_key(".usd"@, preview_iid()),
        shellex_key(".usda"@, thumbnail_iid()),
        shellex_key(".usda"@, preview_iid()),
        shellex_key(".usdc"@, thumbnail_iid()),
        shellex_key(".usdc"@, preview_iid()),
        shellex_key(".usdz"@, thumbnail_iid()),
        shellex_key(".usdz"@, preview_iid()),
    ]
}

fn cat(a: &str, b: &str) -> (r: String)
    ensures
        r@ == a@ + b@,
{
    let mut r = a.to_string();
    r.append(b);
    r
}

fn text_entry(key: String, name: &str, value: &str) -> (r: RegistryWrite)
    ensures
        write_view(r) == text_write(key@, name@, value@),
{
    RegistryWrite { key, name: name.to_string(), value: RegistryValue::Text(value.to_string()) }
}

fn push_write(v: &mut Vec<RegistryWrite>, w: RegistryWrite)
    ensures
        writes_view(final(v)@) == writes_view(old(v)@).push(write_view(w)),
{
    v.push(w);
    assert(writes_view(v@) =~= writes_view(old(v)@).push(write_view(w)));
}

fn push_class_writes(v: &mut Vec<RegistryWrite>, clsid: &str, name: &str, module: &str)
    ensures
        writes_view(final(v)@) == writes_view(old(v)@) + class_writes(clsid@, name@, module@),
{
    let key = cat("Software\\Classes\\CLSID\\", clsid);
    let server = cat(key.as_str(), "\\InProcServer32");
    proof {
        reveal_strlit("");
        assert(""@ =~= Seq::<char>::empty());
    }
    push_write(v, text_entry(key.clone(), "", name));
    push_write(v, text_entry(server.clone(), "", module));
    push_write(v, text_entry(server, "ThreadingModel", "Apartment"));
    push_write(v, RegistryWrite { key: key.clone(), name: "DisableProcessIsolation".to_string(), value: RegistryValue::Dword(1) });
    push_write(v, RegistryWrite { key, name: "DisableLowILProcessIsolation".to_string(), value: RegistryValue::Dword(1) });
    proof {
        reveal_strlit("");
        let n = writes_view(old(v)@).len() as int;
        let cw = class_writes(clsid@, name@, module@);
        assert(writes_view(v@).len() == n + 5);
        assert(writes_view(v@)[n] == cw[0]);
        assert(writes_view(v@)[n + 1] == cw[1]);
        assert(writes_view(v@)[n + 2] == cw[2]);
        assert(writes_view(v@)[n + 3] == cw[3]);
        assert(writes_view(v@)[n + 4] == cw[4]);
    }
    assert(writes_view(v@) =~= writes_view(old(v)@) + class_writes(clsid@, name@, module@));
}

fn shellex(ext: &str, iid: &str) -> (r: String)
    ensures
        r@ == shellex_key(ext@, iid@),
{
    let mut r = cat("Software\\Classes\\", ext);
    r.append("\\shellex\\");
    r.append(iid);
    r
}

/// The values that registration writes under the current user, in order;
/// `module` is the path of the extension's DLL and `exe` that of the viewer.
pub fn registration_writes(module: &str, exe: &str) -> (r: Vec<RegistryWrite>)
    ensures
        writes_view(r@) == registration_plan(module@, exe@),
{
    let mut v: Vec<RegistryWrite> = Vec::new();
    assert(writes_view(v@) =~= Seq::<RegistryWriteModel>::empty());
    push_write(&mut v, text_entry("Software\\PowerUSD\\ShellExtension".to_string(), "PowerUsdExe", exe));
    push_class_writes(&mut v, "{C5D7A75F-95BC-4BD2-9D5D-4DF5C78B68F1}", "PowerUSD Thumbnail Provider", module);
    push_class_writes(&mut v, "{D2251698-70F2-4770-8BA8-4D1EA4C7E7A6}", "PowerUSD Preview Handler", module);
    let ghost before_ext = writes_view(v@);
    let exts = [".usd", ".usda", ".usdc", ".usdz"];
    let ghost ext_seq = extensions();
    let mut i: usize = 0;
    assert(ext_seq.take(0) =~= Seq::<Seq<char>>::empty());
    while i < 4
        invariant
            0 <= i <= 4,
            ext_seq == extensions(),
            forall|k: int| 0 <= k < 4 ==> (#[trigger] exts@[k])@ == ext_seq[k],
            writes_view(v@) == before_ext + extension_writes(ext_seq.take(i as int)),
        decreases 4 - i,
    {
        let ext = exts[i];
        push_write(
            &mut v,
            text_entry(shellex(ext, "{e357fccd-a995-4576-b01f-234630154e96}"), "", "{C5D7A75F-95BC-4BD2-9D5D-4DF5C78B68F1}"),
        );
        push_write(
            &mut v,
            text_entry(shellex(ext, "{8895b1c6-b41f-4c1c-a562-0d564250836f}"), "", "{D2251698-70F2-4770-8BA8-4D1EA4C7E7A6}"),
        );
        proof {
            reveal_strlit("");
            assert(""@ =~= Seq::<char>::empty());
            assert(ext_seq.take(i + 1).drop_last() =~= ext_seq.take(i as int));
            assert(ext_seq.take(i + 1).last() == ext_seq[i as int]);
        }
        assert(writes_view(v@) =~= before_ext + extension_writes(ext_seq.take(i + 1)));
        i += 1;
    }
    assert(ext_seq.take(4) =~= ext_seq);
    push_write(
        &mut v,
        text_entry(
            "Software\\Microsoft\\Windows\\CurrentVersion\\PreviewHandlers".to_string(),
            "{D2251698-70F2-4770-8BA8-4D1EA4C7E7A6}",
            "PowerUSD Preview Handler",
        ),
    );
    push_write(
        &mut v,
        text_entry(
            "Software\\Microsoft\\Windows\\CurrentVersion\\Shell Extensions\\Approved".to_string(),
            "{C5D7A75F-95BC-4BD2-9D5D-4DF5C78B68F1}",
            "PowerUSD Thumbnail Provider",
        ),
    );
    push_write(
        &mut v,
        text_entry(
            "Software\\Microsoft\\Windows\\CurrentVersion\\Shell Extensions\\Approved".to_string(),
            "{D2251698-70F2-4770-8BA8-4D1EA4C7E7A6}",
            "PowerUSD Preview Handler",
        ),
    );
    assert(writes_view(v@) =~= registration_plan(module@, exe@));
    v
}

/// The keys that unregistration deletes, in order.
pub fn unregistration_keys() -> (r: Vec<String>)
    ensures
        views(r@) == unregistration_plan(),
{
    let mut v: Vec<String> = Vec::new();
    v.push(cat("Software\\Classes\\CLSID\\", "{C5D7A75F-95BC-4BD2-9D5D-4DF5C78B68F1}"));
    v.push(cat("Software\\Classes\\CLSID\\", "{D2251698-70F2-4770-8BA8-4D1EA4C7E7A6}"));
    v.push(shellex(".usd", "{e357fccd-a995-4576-b01f-234630154e96}"));
    v.push(shellex(".usd", "{8895b1c6-b41f-4c1c-a562-0d564250836f}"));
    v.push(shellex(".usda", "{e357fccd-a995-4576-b01f-234630154e96}"));
    v.push(shellex(".usda", "{8895b1c6-b41f-4c1c-a562-0d564250836f}"));
    v.push(shellex(".usdc", "{e357fccd-a995-4576-b01f-234630154e96}"));
    v.push(shellex(".usdc", "{8895b1c6-b41f-4c1c-a562-0d564250836f}"));
    v.push(shellex(".usdz", "{e357fccd-a995-4576-b01f-234630154e96}"));
    v.push(shellex(".usdz", "{8895b1c6-b41f-4c1c-a562-0d564250836f}"));
    assert(views(v@) =~= unregistration_plan());
    v
}

/// The edge of a requested thumbnail, kept within 16 to 2048 pixels.
pub fn thumbnail_size(cx: u32) -> (r: u32)
    ensures
        r == (if cx < 16 {
            16
        } else if cx > 2048 {
            2048
        } else {
            cx
        }),
{
    if cx < 16 {
        16
    } else if cx > 2048 {
        2048
    } else {
        cx
    }
}

/// The name of the temporary thumbnail image of a process at a moment.
pub fn thumbnail_file_name(process_id: u32, millis: u64) -> (r: String)
    ensures
        r@ == "powerusd_thumb_"@ + decimal(process_id as nat) + seq!['_'] + decimal(millis as nat) + ".png"@,
{
    let mut r = "powerusd_thumb_".to_string();
    push_decimal(&mut r, process_id as u64);
    crate::text::push_char(&mut r, '_');
    push_decimal(&mut r, millis);
    r.append(".png");
    r
}

/// The arguments that ask the viewer for a thumbnail of `file`, written to
/// `out`, `size` pixels wide.
pub fn thumbnail_args(file: &str, out: &str, size: u32) -> (r: Vec<String>)
    ensures
        views(r@) == seq!["--thumbnail"@, file@, "--out"@, out@, "--size"@, decimal(size as nat)],
{
    let mut v: Vec<String> = Vec::new();
    v.push("--thumbnail".to_string());
    v.push(file.to_string());
    v.push("--out".to_string());
    v.push(out.to_string());
    v.push("--size".to_string());
    v.push(crate::text::decimal_string(size as u64));
    assert(views(v@) =~= seq!["--thumbnail"@, file@, "--out"@, out@, "--size"@, decimal(size as nat)]);
    v
}

/// The arguments that ask the viewer for a preview of `file` in the window
/// `host`.
pub fn preview_args(host: usize, file: &str) -> (r: Vec<String>)
    ensures
        views(r@) == seq!["--preview-child"@, decimal(host as nat), "--file"@, file@],
{
    let mut v: Vec<String> = Vec::new();
    v.push("--preview-child".to_string());
    v.push(crate::text::decimal_string(host as u64));
    v.push("--file".to_string());
    v.push(file.to_string());
    assert(views(v@) =~= seq!["--preview-child"@, decimal(host as nat), "--file"@, file@]);
    v
}

/// Where a development build of the viewer lies: three levels above the
/// DLL's directory, under `target\release`.
pub open spec fn dev_tree_exe_of(dll_dir: Seq<char>) -> Option<Seq<char>> {
    match parent_of(dll_dir) {
        Some(a) => match parent_of(a) {
            Some(b) => match parent_of(b) {
                Some(c) => Some(joined_path(c, "target\\release\\powerusd.exe"@)),
                None => None,
            },
            None => None,
        },
        None => None,
    }
}

/// Where a development build of the viewer lies.
pub fn dev_tree_exe(dll_dir: &str) -> (r: Option<String>)
    ensures
        match r {
            Some(p) => dev_tree_exe_of(dll_dir@) == Some(p@),
            None => dev_tree_exe_of(dll_dir@) is None,
        },
{
    let a = path_parent(dll_dir)?;
    let b = path_parent(a.as_str())?;
    let c = path_parent(b.as_str())?;
    Some(path_join(c.as_str(), "target\\release\\powerusd.exe"))
}

/// The viewer executable to run: the first candidate that exists (the
/// `POWERUSD_EXE` setting, the registered path, the DLL's sibling, the
/// development build, in that order), else `powerusd.exe` from the search
/// path.
pub open spec fn chosen_exe(candidates: Seq<(String, bool)>) -> Seq<char>
    decreases candidates.len(),
{
    if candidates.len() == 0 {
        "powerusd.exe"@
    } else if candidates[0].1 {
        candidates[0].0@
    } else {
        chosen_exe(candidates.drop_first())
    }
}

/// The viewer executable to run; each candidate comes with whether it
/// exists.
pub fn choose_exe(candidates: &Vec<(String, bool)>) -> (r: String)
    ensures
        r@ == chosen_exe(candidates@),
{
    let mut i: usize = 0;
    assert(candidates@.skip(0) =~= candidates@);
    while i < candidates.len()
        invariant
            0 <= i <= candidates.len(),
            chosen_exe(candidates@) == chosen_exe(candidates@.skip(i as int)),
        decreases candidates.len() - i,
    {
        assert(candidates@.skip(i as int).drop_first() =~= candidates@.skip(i + 1));
        assert(candidates@.skip(i as int)[0] == candidates@[i as int]);
        if candidates[i].1 {
            return candidates[i].0.clone();
        }
        i += 1;
    }
    "powerusd.exe".to_string()
}

/// Whether the DLL may be unloaded: no object of it is alive.
pub fn can_unload(live_objects: usize) -> (r: bool)
    ensures
        r == (live_objects == 0),
{
    live_objects == 0
}

} // verus!
