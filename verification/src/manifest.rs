//! The combined web app manifest: the core manifest with the instance's own
//! fields laid over it, and local icons and screenshots inlined as data URIs.

use vstd::prelude::*;
use crate::devtext::{media_source_spec, mime_spec, resolve_media_src_path, mime_for_media_path};
use crate::dirs::Dirs;
use crate::external::{base64_standard, base64_encode};
use crate::json::{Json, JsonV, get_field, set_field, can_take_fields, json_get, json_set, json_clone, items_view, lemma_items_view};
use crate::text::{has_prefix, to_chars, from_chars, push_str, starts_with};

verus! {

/// The fields that an instance manifest sets when it has them.
pub open spec fn overlay_keys() -> Seq<Seq<char>> {
    seq![
        "name"@,
        "short_name"@,
        "description"@,
        "theme_color"@,
        "background_color"@,
        "icons"@,
        "screenshots"@,
        "version"@,
        "orientation"@,
        "categories"@,
        "shortcuts"@,
    ]
}

/// `m` with each of `keys` that `inst` has set to the instance's value, in
/// order.
pub open spec fn overlaid(m: JsonV, inst: JsonV, keys: Seq<Seq<char>>) -> JsonV
    decreases keys.len(),
{
    if keys.len() == 0 {
        m
    } else {
        let m1 = overlaid(m, inst, keys.drop_last());
        match get_field(inst, keys.last()) {
            Some(v) => set_field(m1, keys.last(), v),
            None => m1,
        }
    }
}

/// The overlay can be applied: the core manifest can take fields, or the
/// instance sets none of them (setting a field of anything else fails).
pub open spec fn overlay_allowed(m: JsonV, inst: JsonV) -> bool {
    can_take_fields(m) || forall|k: int| 0 <= k < overlay_keys().len() ==> get_field(inst, #[trigger] overlay_keys()[k]).is_none()
}

proof fn lemma_overlaid_shape(m: JsonV, inst: JsonV, keys: Seq<Seq<char>>)
    ensures
        can_take_fields(m) ==> can_take_fields(overlaid(m, inst, keys)),
        (forall|k: int| 0 <= k < keys.len() ==> get_field(inst, #[trigger] keys[k]).is_none()) ==> overlaid(m, inst, keys) == m,
        (exists|k: int| 0 <= k < keys.len() && get_field(inst, #[trigger] keys[k]).is_some()) ==> overlaid(m, inst, keys) is Object,
    decreases keys.len(),
{
    if keys.len() > 0 {
        lemma_overlaid_shape(m, inst, keys.drop_last());
        if forall|k: int| 0 <= k < keys.len() ==> get_field(inst, #[trigger] keys[k]).is_none() {
            assert forall|k: int| 0 <= k < keys.drop_last().len() implies get_field(inst, #[trigger] keys.drop_last()[k]).is_none() by {
                assert(keys.drop_last()[k] == keys[k]);
            }
            assert(get_field(inst, keys[keys.len() - 1]).is_none());
        }
        if exists|k: int| 0 <= k < keys.len() && get_field(inst, #[trigger] keys[k]).is_some() {
            let k = choose|k: int| 0 <= k < keys.len() && get_field(inst, #[trigger] keys[k]).is_some();
            if k < keys.len() - 1 {
                assert(keys.drop_last()[k] == keys[k]);
            }
        }
    }
}

/// Lays the instance's own fields over the core manifest.
pub fn overlay_instance_fields(manifest: Json, instance: &Json) -> (r: Json)
    requires
        overlay_allowed(manifest@, instance@),
    ensures
        r@ == overlaid(manifest@, instance@, overlay_keys()),
{
    let keys: [&str; 11] = [
        "name",
        "short_name",
        "description",
        "theme_color",
        "background_color",
        "icons",
        "screenshots",
        "version",
        "orientation",
        "categories",
        "shortcuts",
    ];
    let ghost ks = overlay_keys();
    assert(keys@.len() == ks.len());
    assert(forall|k: int| 0 <= k < 11 ==> #[trigger] keys@[k]@ == ks[k]);
    let ghost m0 = manifest@;
    let mut m = manifest;
    let mut i: usize = 0;
    while i < 11
        invariant
            i <= 11,
            ks == overlay_keys(),
            keys@.len() == 11,
            forall|k: int| 0 <= k < 11 ==> #[trigger] keys@[k]@ == ks[k],
            overlay_allowed(m0, instance@),
            m@ == overlaid(m0, instance@, ks.take(i as int)),
        decreases 11 - i,
    {
        let key = keys[i];
        assert(ks.take(i + 1).drop_last() == ks.take(i as int));
        assert(ks.take(i + 1).last() == key@);
        match json_get(instance, key) {
            Some(v) => {
                proof {
                    lemma_overlaid_shape(m0, instance@, ks.take(i as int));
                    if !can_take_fields(m0) {
                        assert(get_field(instance@, ks[i as int]).is_none());
                    }
                }
                let c = json_clone(v);
                m = json_set(m, key, c);
            },
            None => {},
        }
        i = i + 1;
    }
    assert(ks.take(11) == ks);
    m
}

/// The text of a string field, or `default` where the field is missing or
/// not a string.
pub open spec fn str_field_or(m: JsonV, key: Seq<char>, default: Seq<char>) -> Seq<char> {
    match get_field(m, key) {
        Some(JsonV::Str(s)) => s,
        _ => default,
    }
}

/// The app's short name and theme colour as the shell page shows them.
pub open spec fn manifest_info_spec(m: JsonV) -> (Seq<char>, Seq<char>) {
    (str_field_or(m, "short_name"@, ""@), str_field_or(m, "theme_color"@, "#FFFFFF"@))
}

fn str_field_or_exec(m: &Json, key: &str, default: &str) -> (r: String)
    ensures
        r@ == str_field_or(m@, key@, default@),
{
    match json_get(m, key) {
        Some(Json::Str(s)) => s.clone(),
        _ => String::from_str(default),
    }
}

/// The app's short name and theme colour.
pub fn manifest_info(manifest: &Json) -> (r: (String, String))
    ensures
        (r.0@, r.1@) == manifest_info_spec(manifest@),
{
    (str_field_or_exec(manifest, "short_name", ""), str_field_or_exec(manifest, "theme_color", "#FFFFFF"))
}

// ---------------------------------------------------------------------------
// Inlining local media
// ---------------------------------------------------------------------------

/// The `src` text of a media entry.
pub open spec fn media_src(entry: JsonV) -> Option<Seq<char>> {
    match get_field(entry, "src"@) {
        Some(JsonV::Str(s)) => Some(s),
        _ => None,
    }
}

/// The source file that an entry is inlined from: entries whose `src` is a
/// local media URL (not `data:` and not `http…`).
pub open spec fn entry_request(d: Dirs, entry: JsonV) -> Option<Seq<char>> {
    match media_src(entry) {
        Some(s) => if has_prefix(s, "data:"@) || has_prefix(s, "http"@) {
            None
        } else {
            media_source_spec(d, s)
        },
        None => None,
    }
}

/// The entries of a list field (empty where it is missing or not a list).
pub open spec fn list_entries(m: JsonV, key: Seq<char>) -> Seq<JsonV> {
    match get_field(m, key) {
        Some(JsonV::Array(items)) => items,
        _ => seq![],
    }
}

/// The files to read for `items`, in order.
pub open spec fn requests_in(d: Dirs, items: Seq<JsonV>) -> Seq<Seq<char>>
    decreases items.len(),
{
    if items.len() == 0 {
        seq![]
    } else {
        (match entry_request(d, items[0]) {
            Some(f) => seq![f],
            None => seq![],
        }) + requests_in(d, items.drop_first())
    }
}

/// The files to read to inline a manifest's media: its icons, then its
/// screenshots.
pub open spec fn media_requests_spec(d: Dirs, m: JsonV) -> Seq<Seq<char>> {
    requests_in(d, list_entries(m, "icons"@)) + requests_in(d, list_entries(m, "screenshots"@))
}

/// A data URI for a media file.
pub open spec fn data_uri(file: Seq<char>, bytes: Seq<u8>) -> Seq<char> {
    "data:"@ + mime_spec(file) + ";base64,"@ + base64_standard(bytes)
}

/// An entry with the media inlined and its type set.
pub open spec fn with_media(entry: JsonV, file: Seq<char>, bytes: Seq<u8>) -> JsonV {
    set_field(set_field(entry, "src"@, JsonV::Str(data_uri(file, bytes))), "type"@, JsonV::Str(mime_spec(file)))
}

/// `items` with each requested entry inlined from the next of `contents`.
pub open spec fn inlined_items(d: Dirs, items: Seq<JsonV>, contents: Seq<Seq<u8>>) -> Seq<JsonV>
    decreases items.len(),
{
    if items.len() == 0 {
        seq![]
    } else {
        match entry_request(d, items[0]) {
            Some(f) => seq![with_media(items[0], f, contents[0])] + inlined_items(d, items.drop_first(), contents.drop_first()),
            None => seq![items[0]] + inlined_items(d, items.drop_first(), contents),
        }
    }
}

/// A list field with its requested entries inlined.
pub open spec fn inlined_list(d: Dirs, m: JsonV, key: Seq<char>, contents: Seq<Seq<u8>>) -> JsonV {
    match get_field(m, key) {
        Some(JsonV::Array(items)) => set_field(m, key, JsonV::Array(inlined_items(d, items, contents))),
        _ => m,
    }
}

/// The manifest with its local icons and screenshots inlined, `contents`
/// holding the bytes of the requested files in request order.
pub open spec fn inlined_manifest(d: Dirs, m: JsonV, contents: Seq<Seq<u8>>) -> JsonV {
    let n = requests_in(d, list_entries(m, "icons"@)).len();
    inlined_list(d, inlined_list(d, m, "icons"@, contents), "screenshots"@, contents.skip(n as int))
}

fn entry_request_exec(d: &Dirs, entry: &Json) -> (r: Option<String>)
    ensures
        match r {
            Some(f) => entry_request(*d, entry@) == Some(f@),
            None => entry_request(*d, entry@).is_none(),
        },
{
    match json_get(entry, "src") {
        Some(Json::Str(s)) => {
            let sc = to_chars(s.as_str());
            if starts_with(&sc, &to_chars("data:")) || starts_with(&sc, &to_chars("http")) {
                None
            } else {
                resolve_media_src_path(d, s.as_str())
            }
        },
        _ => None,
    }
}

proof fn lemma_requests_step(d: Dirs, items: Seq<JsonV>, i: int)
    requires
        0 <= i < items.len(),
    ensures
        requests_in(d, items.take(i + 1)) == requests_in(d, items.take(i)) + match entry_request(d, items[i]) {
            Some(f) => seq![f],
            None => Seq::<Seq<char>>::empty(),
        },
    decreases i,
{
    let t = items.take(i + 1);
    if i == 0 {
        assert(t.drop_first() =~= Seq::<JsonV>::empty());
        assert(items.take(0) =~= Seq::<JsonV>::empty());
    } else {
        let u = items.drop_first();
        lemma_requests_step(d, u, i - 1);
        assert(t.drop_first() =~= u.take(i));
        assert(items.take(i).drop_first() =~= u.take(i - 1));
        assert(u[i - 1] == items[i]);
    }
}

fn requests_of_list(d: &Dirs, m: &Json, key: &str, out: &mut Vec<String>)
    ensures
        final(out)@.map_values(|s: String| s@) == old(out)@.map_values(|s: String| s@) + requests_in(*d, list_entries(m@, key@)),
{
    match json_get(m, key) {
        Some(Json::Array(items)) => {
            let ghost iv = items_view(items@);
            proof { lemma_items_view(items@); }
            let ghost start = out@.map_values(|s: String| s@);
            let mut i: usize = 0;
            while i < items.len()
                invariant
                    i <= items.len(),
                    iv == items_view(items@),
                    iv.len() == items@.len(),
                    forall|k: int| 0 <= k < items@.len() ==> #[trigger] iv[k] == items@[k]@,
                    out@.map_values(|s: String| s@) == start + requests_in(*d, iv.take(i as int)),
                decreases items.len() - i,
            {
                proof { lemma_requests_step(*d, iv, i as int); }
                match entry_request_exec(d, &items[i]) {
                    Some(f) => {
                        let ghost before = out@;
                        out.push(f);
                        assert(out@.map_values(|s: String| s@) =~= before.map_values(|s: String| s@).push(f@));
                        assert(out@.map_values(|s: String| s@) =~= start + requests_in(*d, iv.take(i + 1)));
                    },
                    None => {
                        assert(out@.map_values(|s: String| s@) =~= start + requests_in(*d, iv.take(i + 1)));
                    },
                }
                i = i + 1;
            }
            assert(iv.take(items.len() as int) == iv);
        },
        _ => {
            assert(out@.map_values(|s: String| s@) =~= old(out)@.map_values(|s: String| s@) + Seq::<Seq<char>>::empty());
        },
    }
}

/// The files to read to inline a manifest's media, in order.
pub fn media_requests(d: &Dirs, manifest: &Json) -> (r: Vec<String>)
    ensures
        r@.map_values(|s: String| s@) == media_requests_spec(*d, manifest@),
{
    let mut out: Vec<String> = Vec::new();
    assert(out@.map_values(|s: String| s@) =~= Seq::<Seq<char>>::empty());
    requests_of_list(d, manifest, "icons", &mut out);
    requests_of_list(d, manifest, "screenshots", &mut out);
    assert(out@.map_values(|s: String| s@) =~= media_requests_spec(*d, manifest@));
    out
}

/// The data URI for a media file.
pub fn data_uri_exec(file: &str, bytes: &[u8]) -> (r: String)
    ensures
        r@ == data_uri(file@, bytes@),
{
    let mut t = to_chars("data:");
    push_str(&mut t, mime_for_media_path(file).as_str());
    push_str(&mut t, ";base64,");
    push_str(&mut t, base64_encode(bytes).as_str());
    from_chars(&t)
}

/// The views of byte vectors.
pub open spec fn bytes_view(v: Seq<Vec<u8>>) -> Seq<Seq<u8>> {
    Seq::new(v.len(), |i: int| v[i]@)
}

fn with_media_exec(entry: &Json, file: &str, bytes: &[u8]) -> (r: Json)
    requires
        entry_request_ok(entry@),
    ensures
        r@ == with_media(entry@, file@, bytes@),
{
    let e = json_clone(entry);
    let uri = data_uri_exec(file, bytes);
    let e = json_set(e, "src", Json::Str(uri));
    json_set(e, "type", Json::Str(mime_for_media_path(file)))
}

/// An entry with a `src` field is an object.
pub open spec fn entry_request_ok(entry: JsonV) -> bool {
    can_take_fields(entry)
}

fn inline_items_exec(d: &Dirs, items: &Vec<Json>, contents: &Vec<Vec<u8>>, start: usize) -> (r: (Vec<Json>, usize))
    requires
        start + requests_in(*d, items_view(items@)).len() <= contents@.len(),
    ensures
        items_view(r.0@) == inlined_items(*d, items_view(items@), bytes_view(contents@).skip(start as int)),
        r.1 == start + requests_in(*d, items_view(items@)).len(),
{
    let ghost iv = items_view(items@);
    let ghost cv = bytes_view(contents@);
    proof { lemma_items_view(items@); }
    let mut out: Vec<Json> = Vec::new();
    let mut used = start;
    let mut i: usize = 0;
    assert(iv.skip(0) == iv);
    assert(items_view(out@) =~= Seq::<JsonV>::empty());
    while i < items.len()
        invariant
            i <= items.len(),
            iv == items_view(items@),
            cv == bytes_view(contents@),
            iv.len() == items@.len(),
            forall|k: int| 0 <= k < items@.len() ==> #[trigger] iv[k] == items@[k]@,
            used + requests_in(*d, iv.skip(i as int)).len() == start + requests_in(*d, iv).len(),
            start + requests_in(*d, iv).len() <= contents@.len(),
            start <= used,
            items_view(out@) + inlined_items(*d, iv.skip(i as int), cv.skip(used as int))
                == inlined_items(*d, iv, cv.skip(start as int)),
        decreases items.len() - i,
    {
        let ghost t = iv.skip(i as int);
        assert(t[0] == items@[i as int]@);
        assert(t.drop_first() == iv.skip(i + 1));
        let ghost before = items_view(out@);
        match entry_request_exec(d, &items[i]) {
            Some(f) => {
                assert(used < contents.len());
                assert(cv.skip(used as int)[0] == contents@[used as int]@);
                assert(cv.skip(used as int).drop_first() == cv.skip(used + 1));
                let e = with_media_exec(&items[i], f.as_str(), &contents[used]);
                proof { crate::json::lemma_items_push(out@, e); }
                out.push(e);
                used = used + 1;
            },
            None => {
                let e = json_clone(&items[i]);
                proof { crate::json::lemma_items_push(out@, e); }
                out.push(e);
            },
        }
        i = i + 1;
    }
    assert(iv.skip(i as int).len() == 0);
    (out, used)
}

/// Two different fields do not affect each other.
pub proof fn lemma_get_set_other(m: JsonV, k1: Seq<char>, v: JsonV, k2: Seq<char>)
    requires
        m is Object,
        k1 != k2,
    ensures
        get_field(set_field(m, k1, v), k2) == get_field(m, k2),
{
    let fs = m->Object_0;
    crate::json::lemma_field_index(fs, k1);
    crate::json::lemma_field_index(fs, k2);
    let i1 = crate::json::field_index(fs, k1);
    let i2 = crate::json::field_index(fs, k2);
    let gs = set_field(m, k1, v)->Object_0;
    crate::json::lemma_field_index(gs, k2);
    let j2 = crate::json::field_index(gs, k2);
    if i1 < fs.len() {
        assert(gs == fs.update(i1, (k1, v)));
        assert forall|k: int| 0 <= k < i2 implies #[trigger] gs[k].0 != k2 by {
            if k != i1 {
                assert(gs[k] == fs[k]);
            }
        }
        if i2 < fs.len() {
            assert(i2 != i1);
            assert(gs[i2] == fs[i2]);
        }
        crate::json::lemma_field_index_unique(gs, k2, i2);
    } else {
        assert(gs == fs.push((k1, v)));
        assert forall|k: int| 0 <= k < i2 implies #[trigger] gs[k].0 != k2 by {
            if k < fs.len() {
                assert(gs[k] == fs[k]);
            }
        }
        if i2 < fs.len() {
            assert(gs[i2] == fs[i2]);
            crate::json::lemma_field_index_unique(gs, k2, i2);
        } else {
            assert(gs[fs.len() as int].0 == k1);
            crate::json::lemma_field_index_unique(gs, k2, gs.len() as int);
        }
    }
}

fn inline_list_exec(d: &Dirs, m: Json, key: &str, contents: &Vec<Vec<u8>>, start: usize) -> (r: (Json, usize))
    requires
        start + requests_in(*d, list_entries(m@, key@)).len() <= contents@.len(),
    ensures
        r.0@ == inlined_list(*d, m@, key@, bytes_view(contents@).skip(start as int)),
        r.1 == start + requests_in(*d, list_entries(m@, key@)).len(),
{
    let found = match json_get(&m, key) {
        Some(Json::Array(items)) => Some(inline_items_exec(d, items, contents, start)),
        _ => None,
    };
    match found {
        Some((new_items, used)) => {
            let r = json_set(m, key, Json::Array(new_items));
            (r, used)
        },
        None => (m, start),
    }
}

/// Inlines the manifest's local icons and screenshots; `contents` holds the
/// bytes of the files that `media_requests` named, in that order.
pub fn inline_manifest_media_as_datauris(d: &Dirs, manifest: Json, contents: &Vec<Vec<u8>>) -> (r: Json)
    requires
        contents@.len() == media_requests_spec(*d, manifest@).len(),
    ensures
        r@ == inlined_manifest(*d, manifest@, bytes_view(contents@)),
{
    let ghost m0 = manifest@;
    let (m1, used) = inline_list_exec(d, manifest, "icons", contents, 0);
    proof {
        assert(bytes_view(contents@).skip(0) == bytes_view(contents@));
        if let Some(JsonV::Array(items)) = get_field(m0, "icons"@) {
            assert("icons"@ != "screenshots"@) by {
                reveal_strlit("icons");
                reveal_strlit("screenshots");
                assert("icons"@.len() != "screenshots"@.len());
            }
            lemma_get_set_other(m0, "icons"@, JsonV::Array(inlined_items(*d, items, bytes_view(contents@).skip(0))), "screenshots"@);
        }
        assert(list_entries(m1@, "screenshots"@) == list_entries(m0, "screenshots"@));
    }
    let (m2, _) = inline_list_exec(d, m1, "screenshots", contents, used);
    m2
}

/// The app's short name and theme colour, as the shell page shows them.
#[derive(Debug)]
pub struct ManifestInfoT {
    pub short_name: String,
    pub theme_color: String,
}

/// The combined manifest of the development output and what the shell page
/// takes from it: the instance's own fields laid over the core manifest,
/// then its local media inlined, `contents` holding the bytes of the files
/// that `media_requests` names for the overlaid manifest, in that order.
pub fn handle_manifest(d: &Dirs, main: Json, instance: &Json, contents: &Vec<Vec<u8>>) -> (r: (Json, ManifestInfoT))
    requires
        overlay_allowed(main@, instance@),
        contents@.len() == media_requests_spec(*d, overlaid(main@, instance@, overlay_keys())).len(),
    ensures
        r.0@ == inlined_manifest(*d, overlaid(main@, instance@, overlay_keys()), bytes_view(contents@)),
        (r.1.short_name@, r.1.theme_color@) == manifest_info_spec(r.0@),
{
    let m = overlay_instance_fields(main, instance);
    let m = inline_manifest_media_as_datauris(d, m, contents);
    let (short_name, theme_color) = manifest_info(&m);
    (m, ManifestInfoT { short_name, theme_color })
}

} // verus!
