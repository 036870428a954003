//! The plan of a Yandex.Disk sync run between its network calls: which
//! local files take part and in what order, which remote directories are
//! listed, which files are already in sync, and which directories still have
//! to be created before an upload.
use crate::archive::{archive_order, is_archive_order};
use crate::paths::string_views;
use crate::text::str_eq;
use crate::paths::{self, join_with};
use crate::text;
use crate::yandex::{
    entry_name, entry_name_of, folder_name, parent_dir, parent_rel_dir, remote_audio, remote_dir,
    remote_dir_for, LastRunSummary,
};
use vstd::prelude::*;

verus! {

broadcast use vstd::string::group_string_axioms;

/// A file found below the local recording root: its `/`-separated path
/// relative to the root, and its size.
pub struct LocalEntry {
    pub rel_path: String,
    pub size: u64,
}

/// Files the Finder leaves behind are never synced.
pub open spec fn ignored_name(name: Seq<char>) -> bool {
    name == ".DS_Store"@
}

pub fn is_ignored_file_name(name: &str) -> (b: bool)
    ensures
        b == ignored_name(name@),
{
    str_eq(name, ".DS_Store")
}

pub open spec fn rel_paths(files: Seq<LocalEntry>) -> Seq<Seq<char>> {
    files.map_values(|f: LocalEntry| f.rel_path@)
}

/// The order the files are visited in: by relative path (files with equal
/// paths keep their order).
pub fn local_file_order(files: &Vec<LocalEntry>) -> (order: Vec<usize>)
    ensures
        is_archive_order(rel_paths(files@), order@),
{
    let mut keys: Vec<String> = Vec::new();
    let mut i: usize = 0;
    while i < files.len()
        invariant
            i <= files@.len(),
            keys@.len() == i,
            forall|j: int| 0 <= j < i ==> #[trigger] keys@[j]@ == files@[j].rel_path@,
        decreases files@.len() - i,
    {
        keys.push(files[i].rel_path.clone());
        i = i + 1;
    }
    assert(string_views(keys@) =~= rel_paths(files@));
    archive_order(&keys)
}

/// The remote directory a file goes to.
pub open spec fn dir_of(remote_folder: Seq<char>, f: LocalEntry) -> Seq<char> {
    remote_dir(remote_folder, parent_dir(f.rel_path@))
}

/// The remote directories of the files, each once, in order of first use:
/// the directories a run lists before it uploads.
pub open spec fn listed_dirs(remote_folder: Seq<char>, files: Seq<LocalEntry>) -> Seq<Seq<char>>
    decreases files.len(),
{
    if files.len() == 0 {
        seq![]
    } else {
        let d = listed_dirs(remote_folder, files.drop_last());
        let x = dir_of(remote_folder, files.last());
        if d.contains(x) {
            d
        } else {
            d.push(x)
        }
    }
}

fn dir_for(remote_folder: &str, f: &LocalEntry) -> (r: String)
    ensures
        r@ == dir_of(remote_folder@, *f),
{
    remote_dir_for(remote_folder, parent_rel_dir(f.rel_path.as_str()).as_str())
}

fn position_of(v: &Vec<String>, x: &str) -> (r: Option<usize>)
    ensures
        match r {
            Some(i) => i < v@.len() && v@[i as int]@ == x@ && forall|j: int|
                0 <= j < i ==> (#[trigger] v@[j])@ != x@,
            None => !string_views(v@).contains(x@),
        },
{
    let mut i: usize = 0;
    while i < v.len()
        invariant
            i <= v@.len(),
            forall|j: int| 0 <= j < i ==> (#[trigger] v@[j])@ != x@,
        decreases v@.len() - i,
    {
        if str_eq(v[i].as_str(), x) {
            return Some(i);
        }
        i = i + 1;
    }
    proof {
        if string_views(v@).contains(x@) {
            let k = choose|k: int| 0 <= k < v@.len() && string_views(v@)[k] == x@;
            assert(v@[k]@ == x@);
        }
    }
    None
}

/// The remote directories to list, in order of first use.
pub fn dirs_to_list(remote_folder: &str, files: &Vec<LocalEntry>) -> (r: Vec<String>)
    ensures
        string_views(r@) == listed_dirs(remote_folder@, files@),
{
    let mut out: Vec<String> = Vec::new();
    let mut i: usize = 0;
    while i < files.len()
        invariant
            i <= files@.len(),
            string_views(out@) == listed_dirs(remote_folder@, files@.subrange(0, i as int)),
        decreases files@.len() - i,
    {
        let ghost before = string_views(out@);
        let ghost pre = files@.subrange(0, i + 1);
        proof {
            assert(pre.drop_last() =~= files@.subrange(0, i as int));
        }
        let d = dir_for(remote_folder, &files[i]);
        match position_of(&out, d.as_str()) {
            Some(k) => {
                proof {
                    assert(before[k as int] == d@);
                }
            },
            None => {
                out.push(d);
                proof {
                    assert(string_views(out@) =~= before.push(d@));
                }
            },
        }
        i = i + 1;
    }
    proof {
        assert(files@.subrange(0, files@.len() as int) =~= files@);
    }
    out
}

/// The size a listing gives a name (the last entry with it), if any.
pub open spec fn listed_size(listing: Seq<(Seq<char>, u64)>, name: Seq<char>) -> Option<u64>
    decreases listing.len(),
{
    if listing.len() == 0 {
        None
    } else if listing.last().0 == name {
        Some(listing.last().1)
    } else {
        listed_size(listing.drop_last(), name)
    }
}

pub open spec fn listing_views(v: Seq<Vec<(String, u64)>>) -> Seq<Seq<(Seq<char>, u64)>> {
    v.map_values(|l: Vec<(String, u64)>| crate::disk_api::entry_views(l@))
}

/// What the listings say of a file: the size of its name in the listing of
/// its directory (`dirs[k]` was listed as `listings[k]`; the first position
/// of the directory counts).
#[verifier::opaque]
pub open spec fn remote_size(
    remote_folder: Seq<char>,
    dirs: Seq<Seq<char>>,
    listings: Seq<Seq<(Seq<char>, u64)>>,
    f: LocalEntry,
) -> Option<u64> {
    let d = dir_of(remote_folder, f);
    if exists|k: int| 0 <= k < dirs.len() && k < listings.len() && dirs[k] == d {
        let k = choose|k: int|
            0 <= k < dirs.len() && k < listings.len() && dirs[k] == d && forall|j: int|
                0 <= j < k ==> dirs[j] != d;
        listed_size(listings[k], entry_name(f.rel_path@))
    } else {
        None
    }
}

/// A file needs uploading unless the Disk holds it with the same size.
pub open spec fn needs_upload(
    remote_folder: Seq<char>,
    dirs: Seq<Seq<char>>,
    listings: Seq<Seq<(Seq<char>, u64)>>,
    f: LocalEntry,
) -> bool {
    remote_size(remote_folder, dirs, listings, f) != Some(f.size)
}

/// The positions of the files that need uploading, in order.
pub open spec fn upload_positions(
    remote_folder: Seq<char>,
    dirs: Seq<Seq<char>>,
    listings: Seq<Seq<(Seq<char>, u64)>>,
    files: Seq<LocalEntry>,
) -> Seq<int>
    decreases files.len(),
{
    if files.len() == 0 {
        seq![]
    } else {
        let rest = upload_positions(remote_folder, dirs, listings, files.drop_last());
        if needs_upload(remote_folder, dirs, listings, files.last()) {
            rest.push(files.len() - 1)
        } else {
            rest
        }
    }
}

fn size_in_listing(listing: &Vec<(String, u64)>, name: &str) -> (r: Option<u64>)
    ensures
        r == listed_size(crate::disk_api::entry_views(listing@), name@),
{
    let ghost lv = crate::disk_api::entry_views(listing@);
    let mut k: usize = listing.len();
    proof {
        assert(lv.subrange(0, k as int) =~= lv);
    }
    while k > 0
        invariant
            k <= listing@.len(),
            lv == crate::disk_api::entry_views(listing@),
            listed_size(lv, name@) == listed_size(lv.subrange(0, k as int), name@),
        decreases k,
    {
        let ghost pre = lv.subrange(0, k as int);
        proof {
            assert(pre.drop_last() =~= lv.subrange(0, k - 1));
        }
        if str_eq(listing[k - 1].0.as_str(), name) {
            return Some(listing[k - 1].1);
        }
        k = k - 1;
    }
    None
}

fn remote_size_of(
    remote_folder: &str,
    dirs: &Vec<String>,
    listings: &Vec<Vec<(String, u64)>>,
    f: &LocalEntry,
) -> (size: Option<u64>)
    ensures
        size == remote_size(remote_folder@, string_views(dirs@), listing_views(listings@), *f),
{
    let ghost ds = string_views(dirs@);
    let ghost ls = listing_views(listings@);
    proof {
        reveal(remote_size);
    }
    let d = dir_for(remote_folder, f);
    match position_of(dirs, d.as_str()) {
        Some(k) => if k < listings.len() {
            proof {
                assert(ds[k as int] == d@);
                assert(forall|j: int| 0 <= j < k ==> ds[j] != d@);
                let w = choose|w: int|
                    0 <= w < ds.len() && w < ls.len() && ds[w] == d@ && forall|j: int|
                        0 <= j < w ==> ds[j] != d@;
                assert(w == k);
                assert(ls[k as int] == crate::disk_api::entry_views(listings@[k as int]@));
            }
            size_in_listing(&listings[k], entry_name_of(f.rel_path.as_str()).as_str())
        } else {
            proof {
                assert(forall|j: int| 0 <= j < k ==> ds[j] != d@);
                assert(!(exists|w: int| 0 <= w < ds.len() && w < ls.len() && ds[w] == d@));
            }
            None
        },
        None => {
            proof {
                assert(!(exists|w: int| 0 <= w < ds.len() && w < ls.len() && ds[w] == d@)) by {
                    if exists|w: int| 0 <= w < ds.len() && w < ls.len() && ds[w] == d@ {
                        let w = choose|w: int| 0 <= w < ds.len() && w < ls.len() && ds[w] == d@;
                        assert(ds.contains(d@));
                    }
                }
            }
            None
        },
    }
}

/// What a sync run works on: the local recording root and the remote folder.
pub struct SyncParams {
    pub local_root: String,
    pub remote_folder: String,
}

/// What a sync run reports as it goes.
pub enum SyncProgress {
    /// The pre-flight comparison is done: how many files were found and how
    /// many of them need an upload.
    Started { total_objects: u32, not_synced: u32 },
    /// Upload `current` of `total` begins.
    Item { current: u32, total: u32, rel_path: String },
    /// The run is over.
    Finished(LastRunSummary),
}

/// The result of the pre-flight comparison.
pub struct Classified {
    /// Files whose remote copy has the same size.
    pub already_synced: usize,
    /// Positions of the files to upload, in order.
    pub to_upload: Vec<usize>,
}

/// Compares every file with the listing of its remote directory
/// (`listings[k]` is what listing `dirs[k]` gave; a failed listing is
/// passed as empty).
pub fn classify_files(
    remote_folder: &str,
    files: &Vec<LocalEntry>,
    dirs: &Vec<String>,
    listings: &Vec<Vec<(String, u64)>>,
) -> (c: Classified)
    ensures
        c.to_upload@.map_values(|i: usize| i as int) == upload_positions(
            remote_folder@,
            string_views(dirs@),
            listing_views(listings@),
            files@,
        ),
        c.already_synced + c.to_upload@.len() == files@.len(),
{
    let ghost ds = string_views(dirs@);
    let ghost ls = listing_views(listings@);
    let mut to_upload: Vec<usize> = Vec::new();
    let mut already: usize = 0;
    let mut i: usize = 0;
    while i < files.len()
        invariant
            i <= files@.len(),
            ds == string_views(dirs@),
            ls == listing_views(listings@),
            already + to_upload@.len() == i,
            to_upload@.map_values(|x: usize| x as int) == upload_positions(
                remote_folder@,
                ds,
                ls,
                files@.subrange(0, i as int),
            ),
        decreases files@.len() - i,
    {
        let ghost pre = files@.subrange(0, i + 1);
        let ghost before = to_upload@.map_values(|x: usize| x as int);
        proof {
            assert(pre.drop_last() =~= files@.subrange(0, i as int));
            assert(pre.last() == files@[i as int]);
        }
        let f = &files[i];
        let size = remote_size_of(remote_folder, dirs, listings, f);
        if size == Some(f.size) {
            already = already + 1;
        } else {
            to_upload.push(i);
            proof {
                assert(to_upload@.map_values(|x: usize| x as int) =~= before.push(i as int));
            }
        }
        i = i + 1;
    }
    proof {
        assert(files@.subrange(0, files@.len() as int) =~= files@);
    }
    Classified { already_synced: already, to_upload }
}

/// The remote directories created (or found) during a run.
pub struct CreatedDirs {
    pub dirs: Vec<String>,
}

impl CreatedDirs {
    /// A run starts with its top directory in place.
    pub fn with_root(remote_folder: &str) -> (c: Self)
        ensures
            string_views(c.dirs@) == seq![remote_dir(remote_folder@, seq![])],
    {
        let mut dirs: Vec<String> = Vec::new();
        dirs.push(remote_dir_for(remote_folder, ""));
        proof {
            reveal_strlit("");
            assert(string_views(dirs@) =~= seq![remote_dir(remote_folder@, seq![])]);
        }
        CreatedDirs { dirs }
    }

    /// Whether a directory must still be created before an upload into it.
    pub fn needs_ensure(&self, remote_dir: &str) -> (b: bool)
        ensures
            b == !string_views(self.dirs@).contains(remote_dir@),
    {
        match position_of(&self.dirs, remote_dir) {
            Some(i) => {
                assert(string_views(self.dirs@)[i as int] == remote_dir@);
                false
            },
            None => true,
        }
    }

    /// Notes a directory as created.
    pub fn mark_created(&mut self, remote_dir: String)
        ensures
            string_views(final(self).dirs@) == string_views(old(self).dirs@).push(remote_dir@),
    {
        let ghost before = string_views(self.dirs@);
        let ghost d = remote_dir@;
        self.dirs.push(remote_dir);
        assert(string_views(self.dirs@) =~= before.push(d));
    }
}

/// Where a file is uploaded: its remote directory and its name.
pub fn upload_target(remote_folder: &str, f: &LocalEntry) -> (r: (String, String))
    ensures
        r.0@ == dir_of(remote_folder@, *f),
        r.1@ == dir_of(remote_folder@, *f) + "/"@ + entry_name(f.rel_path@),
{
    let d = dir_for(remote_folder, f);
    let mut p = d.clone();
    p.append("/");
    p.append(entry_name_of(f.rel_path.as_str()).as_str());
    (d, p)
}

// ------------------------------------------------------------------ laws

/// A path piece that is a single plain name: not empty, no separator.
pub open spec fn plain_name(c: Seq<char>) -> bool {
    c.len() > 0 && forall|j: int| 0 <= j < c.len() ==> c[j] != '/'
}

proof fn lemma_comps_plain(s: Seq<char>)
    ensures
        forall|i: int| 0 <= i < paths::comps_from(s).len() ==> plain_name(#[trigger] paths::comps_from(s)[i]),
    decreases s.len(),
{
    let i = paths::first_slash(s);
    paths::lemma_first_slash_range(s);
    if i >= 0 {
        let head = s.subrange(0, i);
        lemma_comps_plain(s.subrange(i + 1, s.len() as int));
        let tail = paths::comps_from(s.subrange(i + 1, s.len() as int));
        if !(head.len() == 0 || head == paths::dot()) {
            assert forall|k: int| 0 <= k < paths::comps_from(s).len() implies plain_name(
                #[trigger] paths::comps_from(s)[k],
            ) by {
                if k == 0 {
                    assert(paths::comps_from(s)[0] == head);
                } else {
                    assert(paths::comps_from(s)[k] == tail[k - 1]);
                }
            }
        }
    } else {
        if !(s.len() == 0 || s == paths::dot()) {
            assert(paths::comps_from(s) =~= seq![s]);
        }
    }
}

proof fn lemma_components_plain(s: Seq<char>)
    ensures
        forall|i: int| 0 <= i < paths::components(s).len() ==> plain_name(#[trigger] paths::components(s)[i]),
{
    lemma_comps_plain(s);
    if paths::starts_with_cur_dir(s) {
        let c = paths::components(s);
        assert forall|i: int| 0 <= i < c.len() implies plain_name(#[trigger] c[i]) by {
            if i == 0 {
                assert(c[0] == paths::dot());
            } else {
                assert(c[i] == paths::comps_from(s)[i - 1]);
            }
        }
    }
}

proof fn lemma_last_slash_at(s: Seq<char>, k: int)
    requires
        0 <= k < s.len(),
        s[k] == '/',
        forall|j: int| k < j < s.len() ==> s[j] != '/',
    ensures
        paths::last_slash(s) == k,
    decreases s.len(),
{
    if k < s.len() - 1 {
        lemma_last_slash_at(s.drop_last(), k);
    }
}

proof fn lemma_no_last_slash(s: Seq<char>)
    requires
        forall|j: int| 0 <= j < s.len() ==> s[j] != '/',
    ensures
        paths::last_slash(s) == -1,
    decreases s.len(),
{
    if s.len() > 0 {
        lemma_no_last_slash(s.drop_last());
    }
}

proof fn lemma_join_nonempty(cs: Seq<Seq<char>>)
    requires
        cs.len() > 0,
        forall|i: int| 0 <= i < cs.len() ==> plain_name(#[trigger] cs[i]),
    ensures
        join_with(cs, "/"@).len() > 0,
{
    assert(plain_name(cs[cs.len() - 1]));
    if cs.len() > 1 {
        assert(cs.last() == cs[cs.len() - 1]);
    }
}

/// The place the share link points to is where a sync run puts the file:
/// for a session directory below the recording root and a plain file name,
/// the shared path is the upload directory of the file's relative path
/// followed by its name. (The sync takes the folder setting without
/// trimming blanks, so the law holds for a folder without surrounding
/// blanks.)
pub proof fn lemma_share_path_is_sync_path(
    remote_folder: Seq<char>,
    recording_root: Seq<char>,
    session_dir: Seq<char>,
    audio_file: Seq<char>,
)
    requires
        remote_audio(remote_folder, recording_root, session_dir, audio_file) is Some,
        text::trim(remote_folder) == remote_folder,
        forall|j: int| 0 <= j < text::trim(audio_file).len() ==> text::trim(audio_file)[j] != '/',
    ensures
        ({
            let rel = paths::strip_prefix(session_dir, recording_root)->0;
            let rel_path = join_with(rel.push(text::trim(audio_file)), "/"@);
            remote_audio(remote_folder, recording_root, session_dir, audio_file) == Some(
                remote_dir(remote_folder, parent_dir(rel_path)) + "/"@ + entry_name(rel_path),
            )
        }),
{
    reveal_strlit("/");
    reveal_strlit("disk:/");
    let w = text::trim(audio_file);
    let rel = paths::strip_prefix(session_dir, recording_root)->0;
    let rel_path = join_with(rel.push(w), "/"@);
    let f = folder_name(remote_folder);
    lemma_components_plain(session_dir);
    let p = paths::components(session_dir);
    let b = paths::components(recording_root);
    assert(rel =~= p.subrange(b.len() as int, p.len() as int));
    assert forall|i: int| 0 <= i < rel.len() implies plain_name(#[trigger] rel[i]) by {
        assert(rel[i] == p[b.len() + i]);
    }
    assert(rel.push(w).drop_last() =~= rel);
    if rel.len() == 0 {
        assert(rel.push(w) =~= seq![w]);
        assert(rel_path == w);
        lemma_no_last_slash(w);
        assert(parent_dir(rel_path) =~= Seq::<char>::empty());
        assert(entry_name(rel_path) =~= w);
    } else {
        let x = join_with(rel, "/"@);
        assert(rel_path == x + "/"@ + w);
        assert(rel_path[x.len() as int] == '/');
        assert forall|j: int| x.len() < j < rel_path.len() implies rel_path[j] != '/' by {
            assert(rel_path[j] == w[j - x.len() - 1]);
        }
        lemma_last_slash_at(rel_path, x.len() as int);
        assert(parent_dir(rel_path) =~= x);
        assert(entry_name(rel_path) =~= w);
        lemma_join_nonempty(rel);
    }
}

} // verus!
