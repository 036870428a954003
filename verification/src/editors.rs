//! The text editors offered for opening artifacts: how a found editor is
//! keyed, named and given a stand-in icon, which of several finds of the same
//! editor is kept, and which one is the default.
use crate::paths::string_views;
use crate::tags::{chars_lt, lemma_lt_total, lemma_lt_transitive, lemma_lt_irreflexive, seq_lt};
use crate::text::{self, ascii_lower_seq, chars_of, eq_ignore_ascii_case, str_contains, string_from_chars, trim_str};
use vstd::prelude::*;

verus! {

broadcast use vstd::string::group_string_axioms;

/// An editor the user can pick.
pub struct TextEditorApp {
    pub id: String,
    pub name: String,
    pub icon_fallback: String,
    pub icon_data_url: Option<String>,
}

/// The editors found, and the one to preselect.
pub struct TextEditorAppsResponse {
    pub apps: Vec<TextEditorApp>,
    pub default_app_id: Option<String>,
}

/// An editor found on this machine.
pub struct DetectedEditorApp {
    pub id: String,
    pub name: String,
    pub bundle_path: Option<String>,
    pub executable_path: Option<String>,
}

/// The key an editor name is deduplicated by: trimmed, lowercased, every
/// character other than an ASCII letter or digit made `_`, and `_` trimmed
/// from both ends.
pub open spec fn id_key(value: Seq<char>) -> Seq<char> {
    text::trim_char(
        ascii_lower_seq(text::trim(value)).map_values(
            |c: char| if text::is_ascii_alnum(c) { c } else { '_' },
        ),
        '_',
    )
}

pub fn normalize_id(value: &str) -> (r: String)
    ensures
        r@ == id_key(value@),
{
    let lowered = text::ascii_lower_vec(chars_of(trim_str(value)).as_slice());
    let mut mapped: Vec<char> = Vec::new();
    let mut i: usize = 0;
    while i < lowered.len()
        invariant
            i <= lowered@.len(),
            mapped@ == lowered@.subrange(0, i as int).map_values(
                |c: char| if text::is_ascii_alnum(c) { c } else { '_' },
            ),
        decreases lowered@.len() - i,
    {
        let c = lowered[i];
        let alnum = ('0' <= c && c <= '9') || ('a' <= c && c <= 'z') || ('A' <= c && c <= 'Z');
        mapped.push(if alnum { c } else { '_' });
        i = i + 1;
        assert(mapped@ =~= lowered@.subrange(0, i as int).map_values(
            |c: char| if text::is_ascii_alnum(c) { c } else { '_' },
        ));
    }
    assert(lowered@.subrange(0, lowered@.len() as int) =~= lowered@);
    let trimmed = trim_underscores(mapped.as_slice());
    string_from_chars(trimmed.as_slice())
}

fn trim_underscores(v: &[char]) -> (r: Vec<char>)
    ensures
        r@ == text::trim_char(v@, '_'),
{
    let n = v.len();
    let mut lo: usize = 0;
    proof {
        assert(v@.subrange(0, n as int) =~= v@);
    }
    while lo < n && v[lo] == '_'
        invariant
            n == v@.len(),
            lo <= n,
            text::lead_run(v@, '_') == lo + text::lead_run(v@.subrange(lo as int, n as int), '_'),
        decreases n - lo,
    {
        proof {
            assert(v@.subrange(lo as int, n as int).drop_first() =~= v@.subrange(lo + 1, n as int));
        }
        lo = lo + 1;
    }
    let t = text::sub_vec(v, lo, n);
    let m = t.len();
    let mut hi: usize = m;
    proof {
        assert(t@.subrange(0, m as int) =~= t@);
    }
    while hi > 0 && t[hi - 1] == '_'
        invariant
            m == t@.len(),
            hi <= m,
            text::trail_run(t@, '_') == (m - hi) + text::trail_run(t@.subrange(0, hi as int), '_'),
        decreases hi,
    {
        proof {
            assert(t@.subrange(0, hi as int).drop_last() =~= t@.subrange(0, hi - 1));
        }
        hi = hi - 1;
    }
    text::sub_vec(t.as_slice(), 0, hi)
}

/// Names that mark an application as a text editor.
pub open spec fn editor_needles() -> Seq<Seq<char>> {
    seq![
        "textedit"@,
        "notepad"@,
        "sublime"@,
        "code"@,
        "cursor"@,
        "windsurf"@,
        "zed"@,
        "bbedit"@,
        "textmate"@,
        "coteditor"@,
        "nova"@,
    ]
}

pub open spec fn looks_like_editor(name: Seq<char>) -> bool {
    exists|i: int|
        0 <= i < editor_needles().len() && text::contains_seq(
            ascii_lower_seq(name),
            #[trigger] editor_needles()[i],
        )
}

pub fn is_text_editor_name(name: &str) -> (b: bool)
    ensures
        b == looks_like_editor(name@),
{
    let lowered = text::ascii_lowercase(name);
    let l = lowered.as_str();
    let needles = [
        "textedit",
        "notepad",
        "sublime",
        "code",
        "cursor",
        "windsurf",
        "zed",
        "bbedit",
        "textmate",
        "coteditor",
        "nova",
    ];
    let ghost ns = editor_needles();
    let mut i: usize = 0;
    proof {
        assert(needles@.len() == 11);
        assert forall|k: int| 0 <= k < 11 implies #[trigger] needles@[k]@ == ns[k] by {
            reveal_strlit("textedit");
            reveal_strlit("notepad");
            reveal_strlit("sublime");
            reveal_strlit("code");
            reveal_strlit("cursor");
            reveal_strlit("windsurf");
            reveal_strlit("zed");
            reveal_strlit("bbedit");
            reveal_strlit("textmate");
            reveal_strlit("coteditor");
            reveal_strlit("nova");
        }
    }
    while i < 11
        invariant
            i <= 11,
            needles@.len() == 11,
            ns == editor_needles(),
            lowered@ == ascii_lower_seq(name@),
            l@ == lowered@,
            forall|k: int| 0 <= k < 11 ==> #[trigger] needles@[k]@ == ns[k],
            forall|k: int| 0 <= k < i ==> !text::contains_seq(ascii_lower_seq(name@), #[trigger] ns[k]),
        decreases 11 - i,
    {
        if str_contains(l, needles[i]) {
            assert(text::contains_seq(ascii_lower_seq(name@), ns[i as int]));
            return true;
        }
        i = i + 1;
    }
    false
}

/// The stand-in icon of an editor without one of its own.
pub open spec fn fallback_icon(name: Seq<char>) -> Seq<char> {
    let l = ascii_lower_seq(name);
    if text::contains_seq(l, "code"@) {
        "💠"@
    } else if text::contains_seq(l, "notepad"@) {
        "📓"@
    } else if text::contains_seq(l, "sublime"@) {
        "🟧"@
    } else if text::contains_seq(l, "cursor"@) || text::contains_seq(l, "zed"@) {
        "🧩"@
    } else {
        "📝"@
    }
}

pub fn fallback_icon_for_editor(name: &str) -> (r: String)
    ensures
        r@ == fallback_icon(name@),
{
    let lowered = text::ascii_lowercase(name);
    let l = lowered.as_str();
    if str_contains(l, "code") {
        "💠".to_string()
    } else if str_contains(l, "notepad") {
        "📓".to_string()
    } else if str_contains(l, "sublime") {
        "🟧".to_string()
    } else if str_contains(l, "cursor") || str_contains(l, "zed") {
        "🧩".to_string()
    } else {
        "📝".to_string()
    }
}

fn listed_editor(name: &str, icon: &str) -> (a: TextEditorApp)
    ensures
        a.id@ == name@,
        a.name@ == name@,
        a.icon_fallback@ == icon@,
        a.icon_data_url is None,
{
    TextEditorApp {
        id: name.to_string(),
        name: name.to_string(),
        icon_fallback: icon.to_string(),
        icon_data_url: None,
    }
}

/// The editors offered on macOS when none was found.
pub fn macos_fallback_editor_apps() -> (r: Vec<TextEditorApp>)
    ensures
        r@.len() == 6,
        r@[0].name@ == "TextEdit"@ && r@[0].id@ == "TextEdit"@ && r@[0].icon_fallback@ == "📝"@,
        r@[1].name@ == "Visual Studio Code"@ && r@[1].id@ == "Visual Studio Code"@
            && r@[1].icon_fallback@ == "💠"@,
        r@[2].name@ == "Cursor"@ && r@[2].id@ == "Cursor"@ && r@[2].icon_fallback@ == "🧩"@,
        r@[3].name@ == "Windsurf"@ && r@[3].id@ == "Windsurf"@ && r@[3].icon_fallback@ == "🧩"@,
        r@[4].name@ == "Sublime Text"@ && r@[4].id@ == "Sublime Text"@ && r@[4].icon_fallback@
            == "🟧"@,
        r@[5].name@ == "Zed"@ && r@[5].id@ == "Zed"@ && r@[5].icon_fallback@ == "🧩"@,
        forall|i: int| 0 <= i < 6 ==> (#[trigger] r@[i]).icon_data_url is None,
{
    let mut r: Vec<TextEditorApp> = Vec::new();
    r.push(listed_editor("TextEdit", "📝"));
    r.push(listed_editor("Visual Studio Code", "💠"));
    r.push(listed_editor("Cursor", "🧩"));
    r.push(listed_editor("Windsurf", "🧩"));
    r.push(listed_editor("Sublime Text", "🟧"));
    r.push(listed_editor("Zed", "🧩"));
    r
}

pub open spec fn detected_keys(v: Seq<DetectedEditorApp>) -> Seq<Seq<char>> {
    v.map_values(|a: DetectedEditorApp| id_key(a.name@))
}

/// The editors kept of those found: for every key the first find, in key
/// order.
pub open spec fn kept_editors(found: Seq<DetectedEditorApp>, kept: Seq<int>) -> bool {
    &&& forall|i: int, j: int|
        0 <= i < j < kept.len() ==> seq_lt(
            id_key(found[kept[i]].name@),
            id_key(found[kept[j]].name@),
        )
    &&& forall|i: int|
        0 <= i < kept.len() ==> 0 <= #[trigger] kept[i] < found.len() && forall|k: int|
            0 <= k < kept[i] ==> id_key((#[trigger] found[k]).name@) != id_key(found[kept[i]].name@)
    &&& forall|k: int|
        0 <= k < found.len() ==> exists|i: int|
            0 <= i < kept.len() && id_key(found[#[trigger] kept[i]].name@) == id_key(
                (#[trigger] found[k]).name@,
            )
}

/// Positions of the editors kept, in key order: the first find of every key.
pub fn dedupe_editor_apps(found: &Vec<DetectedEditorApp>) -> (kept: Vec<usize>)
    ensures
        kept_editors(found@, kept@.map_values(|i: usize| i as int)),
{
    let ghost f = found@;
    let n = found.len();
    // the key of every find
    let mut keys: Vec<String> = Vec::new();
    let mut i: usize = 0;
    while i < n
        invariant
            f == found@,
            n == f.len(),
            i <= n,
            keys@.len() == i,
            forall|a: int| 0 <= a < i ==> #[trigger] keys@[a]@ == id_key(f[a].name@),
        decreases n - i,
    {
        keys.push(normalize_id(found[i].name.as_str()));
        i = i + 1;
    }
    // the finds whose key did not occur before
    let mut firsts: Vec<usize> = Vec::new();
    let mut first_keys: Vec<String> = Vec::new();
    i = 0;
    while i < n
        invariant
            f == found@,
            n == f.len(),
            i <= n,
            keys@.len() == n,
            forall|a: int| 0 <= a < n ==> #[trigger] keys@[a]@ == id_key(f[a].name@),
            first_keys@.len() == firsts@.len(),
            forall|a: int| 0 <= a < firsts@.len() ==> (#[trigger] firsts@[a] as int) < i,
            forall|a: int| 0 <= a < firsts@.len() ==> #[trigger] first_keys@[a]@ == keys@[firsts@[a] as int]@,
            forall|a: int, b: int| 0 <= a < b < firsts@.len() ==> first_keys@[a]@ != first_keys@[b]@,
            forall|a: int| 0 <= a < firsts@.len() ==> forall|k: int|
                0 <= k < #[trigger] firsts@[a] ==> (#[trigger] keys@[k])@ != keys@[firsts@[a] as int]@,
            forall|k: int| #![trigger keys@[k]] 0 <= k < i ==> exists|a: int| 0 <= a < firsts@.len() && #[trigger] first_keys@[a]@ == keys@[k]@,
        decreases n - i,
    {
        let mut k: usize = 0;
        let mut seen = false;
        let mut at: usize = 0;
        while k < i
            invariant
                i < n,
                keys@.len() == n,
                k <= i,
                seen ==> at < k && keys@[at as int]@ == keys@[i as int]@,
                !seen ==> forall|j: int| 0 <= j < k ==> keys@[j]@ != keys@[i as int]@,
            decreases i - k,
        {
            if !seen && text::str_eq(keys[k].as_str(), keys[i].as_str()) {
                seen = true;
                at = k;
            }
            k = k + 1;
        }
        if !seen {
            let ghost old_fk = first_keys@;
            proof {
                assert forall|a: int| 0 <= a < firsts@.len() implies first_keys@[a]@ != keys@[i as int]@ by {
                    let fa = firsts@[a] as int;
                    assert(fa < i);
                    assert(keys@[fa]@ != keys@[i as int]@);
                }
            }
            firsts.push(i);
            first_keys.push(keys[i].clone());
            proof {
                assert forall|kk: int| #![trigger keys@[kk]] 0 <= kk < i + 1 implies exists|a: int| 0 <= a < firsts@.len() && #[trigger] first_keys@[a]@ == keys@[kk]@ by {
                    if kk == i {
                        assert(first_keys@[firsts@.len() - 1]@ == keys@[kk]@);
                    } else {
                        let a = choose|a: int| 0 <= a < old_fk.len() && #[trigger] old_fk[a]@ == keys@[kk]@;
                        assert(first_keys@[a] == old_fk[a]);
                    }
                }
            }
        } else {
            proof {
                assert(keys@[at as int]@ == keys@[i as int]@);
                let a = choose|a: int| 0 <= a < firsts@.len() && #[trigger] first_keys@[a]@ == keys@[at as int]@;
                assert(first_keys@[a]@ == keys@[i as int]@);
            }
        }
        i = i + 1;
    }
    let order = crate::archive::archive_order(&first_keys);
    let ghost fk = string_views(first_keys@);
    let mut kept: Vec<usize> = Vec::new();
    let mut j: usize = 0;
    while j < order.len()
        invariant
            crate::archive::is_archive_order(fk, order@),
            fk == string_views(first_keys@),
            first_keys@.len() == firsts@.len(),
            j <= order@.len(),
            kept@.len() == j,
            forall|a: int| 0 <= a < j ==> #[trigger] kept@[a] == firsts@[order@[a] as int],
        decreases order@.len() - j,
    {
        kept.push(firsts[order[j]]);
        j = j + 1;
    }
    proof {
        let kv = kept@.map_values(|x: usize| x as int);
        assert forall|a: int, b: int| 0 <= a < b < kv.len() implies seq_lt(
            id_key(f[kv[a]].name@),
            id_key(f[kv[b]].name@),
        ) by {
            let oa = order@[a] as int;
            let ob = order@[b] as int;
            assert(crate::archive::goes_before(fk, oa, ob));
            assert(fk[oa] == first_keys@[oa]@);
            assert(fk[ob] == first_keys@[ob]@);
            if oa != ob {
                if oa < ob {
                    assert(first_keys@[oa]@ != first_keys@[ob]@);
                } else {
                    assert(first_keys@[ob]@ != first_keys@[oa]@);
                }
            } else {
                lemma_lt_irreflexive(fk[oa]);
            }
        }
        assert forall|a: int| 0 <= a < kv.len() implies 0 <= #[trigger] kv[a] < f.len() && forall|k: int|
            0 <= k < kv[a] ==> id_key((#[trigger] f[k]).name@) != id_key(f[kv[a]].name@) by {
            let oa = order@[a] as int;
            assert(kv[a] == firsts@[oa] as int);
            assert forall|k: int| 0 <= k < kv[a] implies id_key((#[trigger] f[k]).name@) != id_key(f[kv[a]].name@) by {
                assert(keys@[k]@ != keys@[firsts@[oa] as int]@);
            }
        }
        assert forall|k: int| 0 <= k < f.len() implies exists|i: int|
            0 <= i < kv.len() && id_key(f[#[trigger] kv[i]].name@) == id_key(
                (#[trigger] f[k]).name@,
            ) by {
            let a = choose|a: int| 0 <= a < firsts@.len() && #[trigger] first_keys@[a]@ == keys@[k]@;
            assert(order@.contains(a as usize));
            let t = choose|t: int| 0 <= t < order@.len() && order@[t] == a as usize;
            assert(kv[t] == firsts@[a] as int);
            assert(keys@[firsts@[a] as int]@ == id_key(f[kv[t]].name@));
        }
    }
    kept
}

/// The editor preselected: on macOS TextEdit, on Windows Notepad (compared
/// ignoring ASCII case), elsewhere none.
pub open spec fn default_editor_name(os: Seq<char>) -> Seq<char> {
    if os == "macos"@ {
        "TextEdit"@
    } else if os == "windows"@ {
        "Notepad"@
    } else {
        Seq::empty()
    }
}

pub open spec fn names_match(a: Seq<char>, b: Seq<char>) -> bool {
    ascii_lower_seq(a) == ascii_lower_seq(b)
}

pub fn default_app_id(apps: &Vec<TextEditorApp>, os: &str) -> (r: Option<String>)
    ensures
        default_editor_name(os@).len() == 0 ==> r is None,
        default_editor_name(os@).len() > 0 ==> match r {
            Some(id) => exists|i: int|
                0 <= i < apps@.len() && names_match(apps@[i].name@, default_editor_name(os@))
                    && id@ == apps@[i].id@ && forall|j: int|
                    0 <= j < i ==> !names_match(#[trigger] apps@[j].name@, default_editor_name(os@)),
            None => forall|i: int|
                0 <= i < apps@.len() ==> !names_match(#[trigger] apps@[i].name@, default_editor_name(os@)),
        },
{
    let name: &str = if str_eq_os(os, "macos") {
        "TextEdit"
    } else if str_eq_os(os, "windows") {
        "Notepad"
    } else {
        ""
    };
    proof {
        reveal_strlit("TextEdit");
        reveal_strlit("Notepad");
        reveal_strlit("macos");
        reveal_strlit("windows");
        reveal_strlit("");
    }
    if name.unicode_len() == 0 {
        return None;
    }
    let mut i: usize = 0;
    while i < apps.len()
        invariant
            i <= apps@.len(),
            name@ == default_editor_name(os@),
            name@.len() > 0,
            forall|j: int| 0 <= j < i ==> !names_match(#[trigger] apps@[j].name@, default_editor_name(os@)),
        decreases apps@.len() - i,
    {
        if eq_ignore_ascii_case(apps[i].name.as_str(), name) {
            return Some(apps[i].id.clone());
        }
        i = i + 1;
    }
    None
}

fn str_eq_os(a: &str, b: &str) -> (r: bool)
    ensures
        r == (a@ == b@),
{
    text::str_eq(a, b)
}

/// An editor as offered, with its own icon when one was found.
pub fn offered_editor(app: &DetectedEditorApp, icon_data_url: Option<String>) -> (a: TextEditorApp)
    ensures
        a.id@ == app.id@,
        a.name@ == app.name@,
        a.icon_fallback@ == fallback_icon(app.name@),
        a.icon_data_url == icon_data_url,
{
    TextEditorApp {
        id: app.id.clone(),
        name: app.name.clone(),
        icon_fallback: fallback_icon_for_editor(app.name.as_str()),
        icon_data_url,
    }
}

/// What the standard base64 alphabet, with padding, makes of some bytes
/// (`base64::engine::general_purpose::STANDARD`).
pub uninterp spec fn spec_base64_standard(bytes: Seq<u8>) -> Seq<char>;

/// `STANDARD.encode` of the `base64` crate; only the naming of the result is
/// claimed.
#[verifier::external_body]
fn base64_standard(bytes: &[u8]) -> (s: String)
    ensures
        s@ == spec_base64_standard(bytes@),
{
    base64::Engine::encode(&base64::engine::general_purpose::STANDARD, bytes)
}

/// An editor icon, given as PNG bytes, as a `data:` URL.
pub fn png_data_url(png: &[u8]) -> (s: String)
    ensures
        s@ == "data:image/png;base64,"@ + spec_base64_standard(png@),
{
    let mut s = "data:image/png;base64,".to_string();
    s.append(base64_standard(png).as_str());
    s
}

} // verus!
