//! The content store: a directory per gist under a common root, a file per
//! cached body. The store is modelled as an explicit value - the directory
//! tree it maintains on disk - so every operation carries an exact
//! contract over that tree.
//!
//! The model keeps three things: whether the root directory exists, the
//! gist directories in creation order, and any loose files sitting
//! directly under the root that something other than the store put there.
//! Self-healing is deletion-wholesale: removing a gist removes its whole
//! directory, stray contents included.

use crate::error::GistCacheError;
use crate::text::str_eq;
use crate::types::{
    first_gist_with_id, has_gist_id, lemma_first_gist_at, lemma_first_gist_none, GistCache,
    GistInfoV,
};
use vstd::prelude::*;
use vstd::string::*;

verus! {

/// Mathematical view of one stored file: its name and its text body.
#[verifier::ext_equal]
pub struct CacheFileV {
    pub name: Seq<char>,
    pub data: Seq<char>,
}

/// One stored file.
#[derive(Debug)]
pub struct CacheFile {
    pub name: String,
    pub data: String,
}

impl View for CacheFile {
    type V = CacheFileV;

    open spec fn view(&self) -> CacheFileV {
        CacheFileV { name: self.name@, data: self.data@ }
    }
}

/// Mathematical view of one gist directory.
#[verifier::ext_equal]
pub struct GistDirV {
    pub id: Seq<char>,
    pub files: Seq<CacheFileV>,
}

/// One gist directory: the gist id names the directory, the files are its
/// contents.
#[derive(Debug)]
pub struct GistDir {
    pub id: String,
    pub files: Vec<CacheFile>,
}

impl View for GistDir {
    type V = GistDirV;

    open spec fn view(&self) -> GistDirV {
        GistDirV { id: self.id@, files: cfiles_view(self.files@) }
    }
}

/// Mathematical view of the whole store.
#[verifier::ext_equal]
pub struct StoreV {
    pub root_exists: bool,
    pub dirs: Seq<GistDirV>,
    pub loose: Seq<CacheFileV>,
}

/// The content store itself.
pub struct ContentCache {
    root_exists: bool,
    dirs: Vec<GistDir>,
    loose: Vec<CacheFile>,
}

/// The views of a sequence of stored files.
pub open spec fn cfiles_view(s: Seq<CacheFile>) -> Seq<CacheFileV> {
    s.map_values(|f: CacheFile| f@)
}

/// The views of a sequence of gist directories.
pub open spec fn cdirs_view(s: Seq<GistDir>) -> Seq<GistDirV> {
    s.map_values(|d: GistDir| d@)
}

impl View for ContentCache {
    type V = StoreV;

    closed spec fn view(&self) -> StoreV {
        StoreV {
            root_exists: self.root_exists,
            dirs: cdirs_view(self.dirs@),
            loose: cfiles_view(self.loose@),
        }
    }
}

// ---------------------------------------------------------------------
// The store's mathematical model: lookups, updates, sizes.
// ---------------------------------------------------------------------

/// The body stored under `name`, if any (first match).
pub open spec fn file_lookup(files: Seq<CacheFileV>, name: Seq<char>) -> Option<Seq<char>>
    decreases files.len(),
{
    if files.len() == 0 {
        Option::None
    } else if files[0].name == name {
        Option::Some(files[0].data)
    } else {
        file_lookup(files.drop_first(), name)
    }
}

/// The contents of the directory named `id`, if it exists (first match).
pub open spec fn dir_lookup(dirs: Seq<GistDirV>, id: Seq<char>) -> Option<Seq<CacheFileV>>
    decreases dirs.len(),
{
    if dirs.len() == 0 {
        Option::None
    } else if dirs[0].id == id {
        Option::Some(dirs[0].files)
    } else {
        dir_lookup(dirs.drop_first(), id)
    }
}

/// Whether a directory named `id` exists.
pub open spec fn has_dir(dirs: Seq<GistDirV>, id: Seq<char>) -> bool {
    dir_lookup(dirs, id) is Some
}

/// The body cached for `(id, name)`, if any.
pub open spec fn store_lookup(v: StoreV, id: Seq<char>, name: Seq<char>) -> Option<Seq<char>> {
    match dir_lookup(v.dirs, id) {
        Option::Some(files) => file_lookup(files, name),
        Option::None => Option::None,
    }
}

/// `files` with the body under `name` replaced, or appended if absent.
pub open spec fn files_put(files: Seq<CacheFileV>, name: Seq<char>, data: Seq<char>) -> Seq<
    CacheFileV,
>
    decreases files.len(),
{
    if files.len() == 0 {
        seq![CacheFileV { name, data }]
    } else if files[0].name == name {
        seq![CacheFileV { name, data }] + files.drop_first()
    } else {
        seq![files[0]] + files_put(files.drop_first(), name, data)
    }
}

/// `dirs` with the body for `(id, name)` written: the directory is created
/// at the end if absent, and within it the file is replaced or appended.
pub open spec fn dirs_put(dirs: Seq<GistDirV>, id: Seq<char>, name: Seq<char>, data: Seq<char>)
    -> Seq<GistDirV>
    decreases dirs.len(),
{
    if dirs.len() == 0 {
        seq![GistDirV { id, files: seq![CacheFileV { name, data }] }]
    } else if dirs[0].id == id {
        seq![GistDirV { id, files: files_put(dirs[0].files, name, data) }] + dirs.drop_first()
    } else {
        seq![dirs[0]] + dirs_put(dirs.drop_first(), id, name, data)
    }
}

/// `dirs` without any directory named `id`.
pub open spec fn dirs_remove(dirs: Seq<GistDirV>, id: Seq<char>) -> Seq<GistDirV>
    decreases dirs.len(),
{
    if dirs.len() == 0 {
        dirs
    } else if dirs[0].id == id {
        dirs_remove(dirs.drop_first(), id)
    } else {
        seq![dirs[0]] + dirs_remove(dirs.drop_first(), id)
    }
}

/// The store after a successful `write(id, name, data)`: the root and the
/// directory exist, the body is in place, everything else is untouched.
pub open spec fn store_write(v: StoreV, id: Seq<char>, name: Seq<char>, data: Seq<char>) -> StoreV {
    StoreV { root_exists: true, dirs: dirs_put(v.dirs, id, name, data), loose: v.loose }
}

/// The store after `delete_gist(id)`: the whole directory is gone.
pub open spec fn store_delete(v: StoreV, id: Seq<char>) -> StoreV {
    StoreV { root_exists: v.root_exists, dirs: dirs_remove(v.dirs, id), loose: v.loose }
}

/// The ids of the gist directories, in order.
pub open spec fn dir_ids(dirs: Seq<GistDirV>) -> Seq<Seq<char>> {
    dirs.map_values(|d: GistDirV| d.id)
}

/// UTF-8 byte length of one stored file.
pub open spec fn file_bytes(f: CacheFileV) -> nat {
    vstd::utf8::encode_utf8(f.data).len()
}

/// Total byte length of a list of files.
pub open spec fn files_size(files: Seq<CacheFileV>) -> nat
    decreases files.len(),
{
    if files.len() == 0 {
        0
    } else {
        files_size(files.drop_last()) + file_bytes(files.last())
    }
}

/// Total byte length of a list of directories.
pub open spec fn dirs_size(dirs: Seq<GistDirV>) -> nat
    decreases dirs.len(),
{
    if dirs.len() == 0 {
        0
    } else {
        dirs_size(dirs.drop_last()) + files_size(dirs.last().files)
    }
}

/// Total byte length of everything under the store root.
pub open spec fn store_size(v: StoreV) -> nat {
    dirs_size(v.dirs) + files_size(v.loose)
}

/// Options for a retention sweep of the content store.
#[derive(Debug, Clone, Copy)]
pub struct CleanOptions {
    /// Remove entries whose index record is older than this many days.
    pub older_than_days: Option<u32>,
    /// Remove entries whose id is absent from the metadata index.
    pub orphaned: bool,
    /// Report what would be removed without removing anything.
    pub dry_run: bool,
}

impl Default for CleanOptions {
    fn default() -> (r: Self)
        ensures
            r.older_than_days is None,
            !r.orphaned,
            !r.dry_run,
    {
        CleanOptions { older_than_days: None, orphaned: false, dry_run: false }
    }
}

/// Outcome of a retention sweep: the ids selected for deletion and the
/// bytes they occupy.
#[derive(Debug)]
pub struct CleanResult {
    /// Ids removed, or that would be removed under `dry_run`.
    pub deleted_gists: Vec<String>,
    /// Bytes their directories occupy, measured before deletion.
    pub deleted_size: u64,
    /// Reserved for reporting; always empty.
    pub orphaned_files: Vec<String>,
}

/// The age criterion: the index knows the id and its record's timestamp
/// lies before `now` minus `days` days.
pub open spec fn is_expired(id: Seq<char>, gists: Seq<GistInfoV>, days: int, now: int) -> bool {
    match first_gist_with_id(gists, id) {
        Option::Some(g) => g.updated_at < now - days * 86400,
        Option::None => false,
    }
}

/// Whether a sweep with `opts` selects the id: orphaned, or expired -
/// two independent criteria combined by OR.
pub open spec fn should_clean(
    id: Seq<char>,
    gists: Seq<GistInfoV>,
    opts: CleanOptions,
    now: int,
) -> bool {
    ||| (opts.orphaned && !has_gist_id(gists, id))
    ||| (match opts.older_than_days {
        Option::Some(d) => is_expired(id, gists, d as int, now),
        Option::None => false,
    })
}

/// The ids a sweep selects, in directory order.
pub open spec fn clean_selected(
    dirs: Seq<GistDirV>,
    gists: Seq<GistInfoV>,
    opts: CleanOptions,
    now: int,
) -> Seq<Seq<char>>
    decreases dirs.len(),
{
    if dirs.len() == 0 {
        Seq::empty()
    } else {
        clean_selected(dirs.drop_last(), gists, opts, now) + (if should_clean(
            dirs.last().id,
            gists,
            opts,
            now,
        ) {
            seq![dirs.last().id]
        } else {
            Seq::empty()
        })
    }
}

/// The bytes a sweep frees: the sizes of the selected directories.
pub open spec fn clean_freed(
    dirs: Seq<GistDirV>,
    gists: Seq<GistInfoV>,
    opts: CleanOptions,
    now: int,
) -> nat
    decreases dirs.len(),
{
    if dirs.len() == 0 {
        0
    } else {
        clean_freed(dirs.drop_last(), gists, opts, now) + (if should_clean(
            dirs.last().id,
            gists,
            opts,
            now,
        ) {
            files_size(dirs.last().files)
        } else {
            0
        })
    }
}

/// The directories a live sweep leaves behind, in order.
pub open spec fn clean_kept(
    dirs: Seq<GistDirV>,
    gists: Seq<GistInfoV>,
    opts: CleanOptions,
    now: int,
) -> Seq<GistDirV>
    decreases dirs.len(),
{
    if dirs.len() == 0 {
        Seq::empty()
    } else {
        clean_kept(dirs.drop_last(), gists, opts, now) + (if !should_clean(
            dirs.last().id,
            gists,
            opts,
            now,
        ) {
            seq![dirs.last()]
        } else {
            Seq::empty()
        })
    }
}

/// Well-formed file list: names unique.
pub open spec fn files_wf(files: Seq<CacheFileV>) -> bool {
    forall|i: int, j: int| 0 <= i < j < files.len() ==> files[i].name != files[j].name
}

/// Well-formed directory list: ids unique, each directory well-formed.
pub open spec fn dirs_wf(dirs: Seq<GistDirV>) -> bool {
    &&& forall|i: int, j: int| 0 <= i < j < dirs.len() ==> dirs[i].id != dirs[j].id
    &&& forall|i: int| 0 <= i < dirs.len() ==> files_wf(#[trigger] dirs[i].files)
}

/// The store invariant: a missing root holds nothing, and names are
/// unique at each level.
pub open spec fn store_wf(v: StoreV) -> bool {
    &&& dirs_wf(v.dirs)
    &&& !v.root_exists ==> v.dirs.len() == 0 && v.loose.len() == 0
}

// ---------------------------------------------------------------------
// Bridging lemmas between the recursive model and indexed scans.
// ---------------------------------------------------------------------

/// A first match at index `i` settles `file_lookup`.
pub proof fn lemma_file_lookup_at(files: Seq<CacheFileV>, name: Seq<char>, i: int)
    requires
        0 <= i < files.len(),
        files[i].name == name,
        forall|k: int| 0 <= k < i ==> files[k].name != name,
    ensures
        file_lookup(files, name) == Option::Some(files[i].data),
    decreases i,
{
    if i > 0 {
        lemma_file_lookup_at(files.drop_first(), name, i - 1);
    }
}

/// No match anywhere settles `file_lookup` to `None`.
pub proof fn lemma_file_lookup_none(files: Seq<CacheFileV>, name: Seq<char>)
    requires
        forall|k: int| 0 <= k < files.len() ==> files[k].name != name,
    ensures
        file_lookup(files, name) is None,
    decreases files.len(),
{
    if files.len() > 0 {
        lemma_file_lookup_none(files.drop_first(), name);
    }
}

/// A first match at index `i` settles `dir_lookup`.
pub proof fn lemma_dir_lookup_at(dirs: Seq<GistDirV>, id: Seq<char>, i: int)
    requires
        0 <= i < dirs.len(),
        dirs[i].id == id,
        forall|k: int| 0 <= k < i ==> dirs[k].id != id,
    ensures
        dir_lookup(dirs, id) == Option::Some(dirs[i].files),
    decreases i,
{
    if i > 0 {
        lemma_dir_lookup_at(dirs.drop_first(), id, i - 1);
    }
}

/// No match anywhere settles `dir_lookup` to `None`.
pub proof fn lemma_dir_lookup_none(dirs: Seq<GistDirV>, id: Seq<char>)
    requires
        forall|k: int| 0 <= k < dirs.len() ==> dirs[k].id != id,
    ensures
        dir_lookup(dirs, id) is None,
    decreases dirs.len(),
{
    if dirs.len() > 0 {
        lemma_dir_lookup_none(dirs.drop_first(), id);
    }
}

/// Writing over the first match at `j` replaces that one entry.
pub proof fn lemma_files_put_at(files: Seq<CacheFileV>, name: Seq<char>, data: Seq<char>, j: int)
    requires
        0 <= j < files.len(),
        files[j].name == name,
        forall|k: int| 0 <= k < j ==> files[k].name != name,
    ensures
        files_put(files, name, data) == files.update(j, CacheFileV { name, data }),
    decreases j,
{
    if j == 0 {
        assert(files_put(files, name, data) =~= files.update(0, CacheFileV { name, data }));
    } else {
        lemma_files_put_at(files.drop_first(), name, data, j - 1);
        assert(files_put(files, name, data) =~= files.update(j, CacheFileV { name, data }));
    }
}

/// Writing a name that is absent appends one entry.
pub proof fn lemma_files_put_append(files: Seq<CacheFileV>, name: Seq<char>, data: Seq<char>)
    requires
        forall|k: int| 0 <= k < files.len() ==> files[k].name != name,
    ensures
        files_put(files, name, data) == files + seq![CacheFileV { name, data }],
    decreases files.len(),
{
    if files.len() == 0 {
        assert(files_put(files, name, data) =~= files + seq![CacheFileV { name, data }]);
    } else {
        lemma_files_put_append(files.drop_first(), name, data);
        assert(files_put(files, name, data) =~= files + seq![CacheFileV { name, data }]);
    }
}

/// Writing into the directory first matched at `i` updates that directory
/// in place.
pub proof fn lemma_dirs_put_at(
    dirs: Seq<GistDirV>,
    id: Seq<char>,
    name: Seq<char>,
    data: Seq<char>,
    i: int,
)
    requires
        0 <= i < dirs.len(),
        dirs[i].id == id,
        forall|k: int| 0 <= k < i ==> dirs[k].id != id,
    ensures
        dirs_put(dirs, id, name, data) == dirs.update(
            i,
            GistDirV { id, files: files_put(dirs[i].files, name, data) },
        ),
    decreases i,
{
    if i == 0 {
        assert(dirs_put(dirs, id, name, data) =~= dirs.update(
            0,
            GistDirV { id, files: files_put(dirs[0].files, name, data) },
        ));
    } else {
        lemma_dirs_put_at(dirs.drop_first(), id, name, data, i - 1);
        assert(dirs_put(dirs, id, name, data) =~= dirs.update(
            i,
            GistDirV { id, files: files_put(dirs[i].files, name, data) },
        ));
    }
}

/// Writing under an id with no directory appends a fresh directory.
pub proof fn lemma_dirs_put_append(
    dirs: Seq<GistDirV>,
    id: Seq<char>,
    name: Seq<char>,
    data: Seq<char>,
)
    requires
        forall|k: int| 0 <= k < dirs.len() ==> dirs[k].id != id,
    ensures
        dirs_put(dirs, id, name, data) == dirs + seq![
            GistDirV { id, files: seq![CacheFileV { name, data }] },
        ],
    decreases dirs.len(),
{
    if dirs.len() == 0 {
        assert(dirs_put(dirs, id, name, data) =~= dirs + seq![
            GistDirV { id, files: seq![CacheFileV { name, data }] },
        ]);
    } else {
        lemma_dirs_put_append(dirs.drop_first(), id, name, data);
        assert(dirs_put(dirs, id, name, data) =~= dirs + seq![
            GistDirV { id, files: seq![CacheFileV { name, data }] },
        ]);
    }
}

/// Removing the id matched uniquely at `i` cuts exactly that directory.
pub proof fn lemma_dirs_remove_at(dirs: Seq<GistDirV>, id: Seq<char>, i: int)
    requires
        0 <= i < dirs.len(),
        dirs[i].id == id,
        forall|k: int| 0 <= k < dirs.len() && k != i ==> dirs[k].id != id,
    ensures
        dirs_remove(dirs, id) == dirs.subrange(0, i) + dirs.subrange(i + 1, dirs.len() as int),
    decreases i,
{
    if i == 0 {
        lemma_dirs_remove_none(dirs.drop_first(), id);
        assert(dirs_remove(dirs, id) =~= dirs.subrange(0, 0) + dirs.subrange(
            1,
            dirs.len() as int,
        ));
    } else {
        lemma_dirs_remove_at(dirs.drop_first(), id, i - 1);
        assert(dirs_remove(dirs, id) =~= dirs.subrange(0, i) + dirs.subrange(
            i + 1,
            dirs.len() as int,
        ));
    }
}

/// Removing an absent id changes nothing.
pub proof fn lemma_dirs_remove_none(dirs: Seq<GistDirV>, id: Seq<char>)
    requires
        forall|k: int| 0 <= k < dirs.len() ==> dirs[k].id != id,
    ensures
        dirs_remove(dirs, id) == dirs,
    decreases dirs.len(),
{
    if dirs.len() > 0 {
        lemma_dirs_remove_none(dirs.drop_first(), id);
        assert(dirs_remove(dirs, id) =~= dirs);
    }
}

/// One more file extends the size of a prefix by that file's bytes.
pub proof fn lemma_files_size_take_step(files: Seq<CacheFileV>, i: int)
    requires
        0 <= i < files.len(),
    ensures
        files_size(files.take(i + 1)) == files_size(files.take(i)) + file_bytes(files[i]),
{
    assert(files.take(i + 1).drop_last() =~= files.take(i));
    assert(files.take(i + 1).last() == files[i]);
}

/// A prefix never weighs more than the whole list.
pub proof fn lemma_files_size_take_le(files: Seq<CacheFileV>, i: int)
    requires
        0 <= i <= files.len(),
    ensures
        files_size(files.take(i)) <= files_size(files),
    decreases files.len() - i,
{
    if i == files.len() {
        assert(files.take(i) =~= files);
    } else {
        lemma_files_size_take_step(files, i);
        lemma_files_size_take_le(files, i + 1);
    }
}

/// One more directory extends the size of a prefix by its files' bytes.
pub proof fn lemma_dirs_size_take_step(dirs: Seq<GistDirV>, i: int)
    requires
        0 <= i < dirs.len(),
    ensures
        dirs_size(dirs.take(i + 1)) == dirs_size(dirs.take(i)) + files_size(dirs[i].files),
{
    assert(dirs.take(i + 1).drop_last() =~= dirs.take(i));
    assert(dirs.take(i + 1).last() == dirs[i]);
}

/// A prefix of directories never weighs more than all of them.
pub proof fn lemma_dirs_size_take_le(dirs: Seq<GistDirV>, i: int)
    requires
        0 <= i <= dirs.len(),
    ensures
        dirs_size(dirs.take(i)) <= dirs_size(dirs),
    decreases dirs.len() - i,
{
    if i == dirs.len() {
        assert(dirs.take(i) =~= dirs);
    } else {
        lemma_dirs_size_take_step(dirs, i);
        lemma_dirs_size_take_le(dirs, i + 1);
    }
}

/// Unfolding a sweep over a prefix, one directory at a time.
pub proof fn lemma_clean_take_step(
    dirs: Seq<GistDirV>,
    gists: Seq<GistInfoV>,
    opts: CleanOptions,
    now: int,
    i: int,
)
    requires
        0 <= i < dirs.len(),
    ensures
        clean_selected(dirs.take(i + 1), gists, opts, now) == clean_selected(
            dirs.take(i),
            gists,
            opts,
            now,
        ) + (if should_clean(dirs[i].id, gists, opts, now) {
            seq![dirs[i].id]
        } else {
            Seq::empty()
        }),
        clean_freed(dirs.take(i + 1), gists, opts, now) == clean_freed(
            dirs.take(i),
            gists,
            opts,
            now,
        ) + (if should_clean(dirs[i].id, gists, opts, now) {
            files_size(dirs[i].files)
        } else {
            0
        }),
        clean_kept(dirs.take(i + 1), gists, opts, now) == clean_kept(dirs.take(i), gists, opts, now)
            + (if !should_clean(dirs[i].id, gists, opts, now) {
            seq![dirs[i]]
        } else {
            Seq::empty()
        }),
{
    assert(dirs.take(i + 1).drop_last() =~= dirs.take(i));
    assert(dirs.take(i + 1).last() == dirs[i]);
}

/// What a sweep frees is part of what the swept directories weigh.
pub proof fn lemma_clean_freed_le(
    dirs: Seq<GistDirV>,
    gists: Seq<GistInfoV>,
    opts: CleanOptions,
    now: int,
)
    ensures
        clean_freed(dirs, gists, opts, now) <= dirs_size(dirs),
    decreases dirs.len(),
{
    if dirs.len() > 0 {
        lemma_clean_freed_le(dirs.drop_last(), gists, opts, now);
    }
}

/// A sweep keeps a selection of the original directories, so the store
/// invariant survives it.
pub proof fn lemma_clean_kept_wf(
    dirs: Seq<GistDirV>,
    gists: Seq<GistInfoV>,
    opts: CleanOptions,
    now: int,
)
    requires
        dirs_wf(dirs),
    ensures
        dirs_wf(clean_kept(dirs, gists, opts, now)),
        forall|k: int|
            0 <= k < clean_kept(dirs, gists, opts, now).len() ==> exists|j: int|
                0 <= j < dirs.len() && #[trigger] clean_kept(dirs, gists, opts, now)[k] == dirs[j],
    decreases dirs.len(),
{
    if dirs.len() > 0 {
        let dl = dirs.drop_last();
        assert(dirs_wf(dl)) by {
            assert(forall|k: int| 0 <= k < dl.len() ==> dl[k] == dirs[k]);
        }
        lemma_clean_kept_wf(dl, gists, opts, now);
        let kept = clean_kept(dirs, gists, opts, now);
        let keptdl = clean_kept(dl, gists, opts, now);
        assert forall|k: int| 0 <= k < kept.len() implies exists|j: int|
            0 <= j < dirs.len() && #[trigger] kept[k] == dirs[j] by {
            if k < keptdl.len() {
                let j = choose|j: int| 0 <= j < dl.len() && #[trigger] keptdl[k] == dl[j];
                assert(kept[k] == dirs[j]);
            } else {
                assert(kept[k] == dirs[dirs.len() - 1]);
            }
        }
        assert forall|a: int, b: int| 0 <= a < b < kept.len() implies kept[a].id != kept[b].id by {
            if b < keptdl.len() {
                assert(keptdl[a].id != keptdl[b].id);
            } else {
                let j = choose|j: int| 0 <= j < dl.len() && #[trigger] keptdl[a] == dl[j];
                assert(kept[b] == dirs[dirs.len() - 1]);
                assert(kept[a].id == dirs[j].id);
            }
        }
        assert forall|k: int| 0 <= k < kept.len() implies files_wf(#[trigger] kept[k].files) by {
            let j = choose|j: int| 0 <= j < dirs.len() && #[trigger] kept[k] == dirs[j];
            assert(files_wf(dirs[j].files));
        }
    }
}

impl ContentCache {
    /// A store over a root that does not exist yet.
    pub fn new() -> (r: Self)
        ensures
            r@ == (StoreV { root_exists: false, dirs: Seq::empty(), loose: Seq::empty() }),
            store_wf(r@),
    {
        let r = ContentCache { root_exists: false, dirs: Vec::new(), loose: Vec::new() };
        proof {
            assert(r@.dirs =~= Seq::<GistDirV>::empty());
            assert(r@.loose =~= Seq::<CacheFileV>::empty());
            assert(r@ =~= (StoreV {
                root_exists: false,
                dirs: Seq::empty(),
                loose: Seq::empty(),
            }));
        }
        r
    }

    /// Create the store root if it is absent; contents are untouched.
    pub fn ensure_cache_dir(&mut self) -> (r: Result<(), GistCacheError>)
        requires
            store_wf(old(self)@),
        ensures
            r is Ok,
            final(self)@ == (StoreV { root_exists: true, ..old(self)@ }),
            store_wf(final(self)@),
    {
        self.root_exists = true;
        proof {
            assert(self@ =~= (StoreV { root_exists: true, ..old(self)@ }));
        }
        Ok(())
    }

    /// The index of the directory named `id`, if one exists.
    fn find_dir(&self, gist_id: &str) -> (r: Option<usize>)
        ensures
            match r {
                Option::Some(i) => {
                    &&& i < self@.dirs.len()
                    &&& self@.dirs[i as int].id == gist_id@
                    &&& forall|k: int| 0 <= k < i ==> self@.dirs[k].id != gist_id@
                    &&& dir_lookup(self@.dirs, gist_id@) == Option::Some(self@.dirs[i as int].files)
                },
                Option::None => {
                    &&& dir_lookup(self@.dirs, gist_id@) is None
                    &&& forall|k: int| 0 <= k < self@.dirs.len() ==> self@.dirs[k].id != gist_id@
                },
            },
    {
        let mut i: usize = 0;
        while i < self.dirs.len()
            invariant
                i <= self.dirs.len(),
                self@.dirs.len() == self.dirs.len(),
                forall|k: int| 0 <= k < i ==> self@.dirs[k].id != gist_id@,
            decreases self.dirs.len() - i,
        {
            if str_eq(self.dirs[i].id.as_str(), gist_id) {
                proof {
                    lemma_dir_lookup_at(self@.dirs, gist_id@, i as int);
                }
                return Some(i);
            }
            i = i + 1;
        }
        proof {
            lemma_dir_lookup_none(self@.dirs, gist_id@);
        }
        None
    }

    /// Pure existence check for a cached body; never fails.
    pub fn is_cached(&self, gist_id: &str, filename: &str) -> (r: bool)
        ensures
            r == (store_lookup(self@, gist_id@, filename@) is Some),
    {
        match self.find_dir(gist_id) {
            Option::Some(i) => {
                let dir = &self.dirs[i];
                let mut j: usize = 0;
                while j < dir.files.len()
                    invariant
                        j <= dir.files.len(),
                        dir@.files.len() == dir.files.len(),
                        forall|k: int| 0 <= k < j ==> dir@.files[k].name != filename@,
                        dir_lookup(self@.dirs, gist_id@) == Option::Some(dir@.files),
                    decreases dir.files.len() - j,
                {
                    if str_eq(dir.files[j].name.as_str(), filename) {
                        proof {
                            lemma_file_lookup_at(dir@.files, filename@, j as int);
                        }
                        return true;
                    }
                    j = j + 1;
                }
                proof {
                    lemma_file_lookup_none(dir@.files, filename@);
                }
                false
            },
            Option::None => false,
        }
    }

    /// Read a cached body back. Fails with `CacheReadError` exactly when
    /// nothing is cached under `(gist_id, filename)`; callers treat that
    /// as "not cached" and re-fetch.
    pub fn read(&self, gist_id: &str, filename: &str) -> (r: Result<String, GistCacheError>)
        ensures
            match r {
                Result::Ok(body) => store_lookup(self@, gist_id@, filename@) == Option::Some(
                    body@,
                ),
                Result::Err(e) => e is CacheReadError && store_lookup(self@, gist_id@, filename@)
                    is None,
            },
    {
        match self.find_dir(gist_id) {
            Option::Some(i) => {
                let dir = &self.dirs[i];
                let mut j: usize = 0;
                while j < dir.files.len()
                    invariant
                        j <= dir.files.len(),
                        dir@.files.len() == dir.files.len(),
                        forall|k: int| 0 <= k < j ==> dir@.files[k].name != filename@,
                        dir_lookup(self@.dirs, gist_id@) == Option::Some(dir@.files),
                    decreases dir.files.len() - j,
                {
                    if str_eq(dir.files[j].name.as_str(), filename) {
                        proof {
                            lemma_file_lookup_at(dir@.files, filename@, j as int);
                        }
                        return Ok(dir.files[j].data.clone());
                    }
                    j = j + 1;
                }
                proof {
                    lemma_file_lookup_none(dir@.files, filename@);
                }
                let mut msg = String::from_str("cache file not found: ");
                msg.append(filename);
                Err(GistCacheError::CacheReadError(msg))
            },
            Option::None => {
                let mut msg = String::from_str("cache file not found: ");
                msg.append(filename);
                Err(GistCacheError::CacheReadError(msg))
            },
        }
    }

    /// The index of the first file named `filename`, if any.
    fn find_file(files: &Vec<CacheFile>, filename: &str) -> (r: Option<usize>)
        ensures
            match r {
                Option::Some(j) => {
                    &&& j < files@.len()
                    &&& files@[j as int]@.name == filename@
                    &&& forall|k: int| 0 <= k < j ==> files@[k]@.name != filename@
                },
                Option::None => forall|k: int|
                    0 <= k < files@.len() ==> files@[k]@.name != filename@,
            },
    {
        let mut j: usize = 0;
        while j < files.len()
            invariant
                j <= files.len(),
                forall|k: int| 0 <= k < j ==> files@[k]@.name != filename@,
            decreases files.len() - j,
        {
            if str_eq(files[j].name.as_str(), filename) {
                return Some(j);
            }
            j = j + 1;
        }
        None
    }

    /// Cache a body under `(gist_id, filename)`. The gist directory (and
    /// the root) are created if absent; a previous body under the same
    /// name is replaced whole - the on-disk protocol writes a temporary
    /// sibling and renames it into place, so a reader never observes a
    /// partial body.
    pub fn write(&mut self, gist_id: &str, filename: &str, content: &str) -> (r: Result<
        (),
        GistCacheError,
    >)
        requires
            store_wf(old(self)@),
        ensures
            r is Ok,
            final(self)@ == store_write(old(self)@, gist_id@, filename@, content@),
            store_wf(final(self)@),
    {
        self.root_exists = true;
        let ghost pre = self@;
        let ghost fv = CacheFileV { name: filename@, data: content@ };
        match self.find_dir(gist_id) {
            Option::Some(i) => {
                let ghost olddir = pre.dirs[i as int];
                let mut dir = self.dirs.remove(i);
                match Self::find_file(&dir.files, filename) {
                    Option::Some(j) => {
                        proof {
                            lemma_files_put_at(olddir.files, filename@, content@, j as int);
                        }
                        dir.files.set(
                            j,
                            CacheFile {
                                name: String::from_str(filename),
                                data: String::from_str(content),
                            },
                        );
                        proof {
                            assert(dir@.files =~= files_put(olddir.files, filename@, content@));
                            assert(files_wf(olddir.files));
                            assert forall|a: int, b: int|
                                0 <= a < b < dir@.files.len() implies dir@.files[a].name
                                != dir@.files[b].name by {
                                assert(olddir.files[a].name != olddir.files[b].name);
                                if a == j {
                                    assert(dir@.files[a].name == olddir.files[a].name);
                                } else if b == j {
                                    assert(dir@.files[b].name == olddir.files[b].name);
                                }
                            }
                            assert(files_wf(dir@.files));
                        }
                    },
                    Option::None => {
                        proof {
                            lemma_files_put_append(olddir.files, filename@, content@);
                        }
                        dir.files.push(
                            CacheFile {
                                name: String::from_str(filename),
                                data: String::from_str(content),
                            },
                        );
                        proof {
                            assert(dir@.files =~= files_put(olddir.files, filename@, content@));
                            assert(files_wf(olddir.files));
                            assert forall|a: int, b: int|
                                0 <= a < b < dir@.files.len() implies dir@.files[a].name
                                != dir@.files[b].name by {
                                if b == olddir.files.len() {
                                    assert(dir@.files[a].name == olddir.files[a].name);
                                    assert(dir@.files[b].name == filename@);
                                } else {
                                    assert(olddir.files[a].name != olddir.files[b].name);
                                }
                            }
                            assert(files_wf(dir@.files));
                        }
                    },
                }
                proof {
                    lemma_dirs_put_at(pre.dirs, gist_id@, filename@, content@, i as int);
                    assert(dir@ =~= (GistDirV {
                        id: gist_id@,
                        files: files_put(olddir.files, filename@, content@),
                    }));
                }
                self.dirs.insert(i, dir);
                proof {
                    assert(self@.dirs =~= pre.dirs.update(i as int, dir@));
                    assert(self@ =~= store_write(old(self)@, gist_id@, filename@, content@));
                    assert(store_wf(self@));
                }
                Ok(())
            },
            Option::None => {
                let mut files: Vec<CacheFile> = Vec::new();
                files.push(
                    CacheFile { name: String::from_str(filename), data: String::from_str(content) },
                );
                self.dirs.push(GistDir { id: String::from_str(gist_id), files });
                proof {
                    lemma_dirs_put_append(pre.dirs, gist_id@, filename@, content@);
                    assert(self@.dirs.len() == pre.dirs.len() + 1);
                    assert(self@.dirs.last().files =~= seq![fv]);
                    assert(self@.dirs =~~= pre.dirs + seq![
                        GistDirV { id: gist_id@, files: seq![fv] },
                    ]);
                    assert(self@ =~= store_write(old(self)@, gist_id@, filename@, content@));
                    assert(store_wf(self@));
                }
                Ok(())
            },
        }
    }

    /// Remove the whole directory of a gist, stray files included; that is
    /// the self-healing rule. Returns `Ok(true)` when a directory was
    /// actually removed, `Ok(false)` when there was none - absence is an
    /// expected steady state, not a fault.
    pub fn delete_gist(&mut self, gist_id: &str) -> (r: Result<bool, GistCacheError>)
        requires
            store_wf(old(self)@),
        ensures
            r matches Ok(b) && b == has_dir(old(self)@.dirs, gist_id@),
            final(self)@ == store_delete(old(self)@, gist_id@),
            store_wf(final(self)@),
    {
        let ghost pre = self@;
        match self.find_dir(gist_id) {
            Option::Some(i) => {
                proof {
                    assert(forall|k: int|
                        0 <= k < pre.dirs.len() && k != i ==> pre.dirs[k].id != gist_id@);
                    lemma_dirs_remove_at(pre.dirs, gist_id@, i as int);
                }
                let _removed = self.dirs.remove(i);
                proof {
                    assert(self@.dirs =~= pre.dirs.subrange(0, i as int) + pre.dirs.subrange(
                        i + 1,
                        pre.dirs.len() as int,
                    ));
                    assert(self@ =~= store_delete(old(self)@, gist_id@));
                    assert(store_wf(self@));
                }
                Ok(true)
            },
            Option::None => {
                proof {
                    lemma_dirs_remove_none(pre.dirs, gist_id@);
                    assert(self@ =~= store_delete(old(self)@, gist_id@));
                }
                Ok(false)
            },
        }
    }

    /// The ids of all cached gists, in directory order. Loose files under
    /// the root are not gist directories and never appear here.
    pub fn list_cached_gists(&self) -> (r: Result<Vec<String>, GistCacheError>)
        ensures
            r matches Ok(ids) && ids@.map_values(|s: String| s@) == dir_ids(self@.dirs),
    {
        let mut ids: Vec<String> = Vec::new();
        let mut i: usize = 0;
        while i < self.dirs.len()
            invariant
                i <= self.dirs.len(),
                self@.dirs.len() == self.dirs.len(),
                ids@.len() == i,
                forall|k: int| 0 <= k < i ==> ids@[k]@ == self@.dirs[k].id,
            decreases self.dirs.len() - i,
        {
            ids.push(self.dirs[i].id.clone());
            i = i + 1;
        }
        proof {
            assert(ids@.map_values(|s: String| s@) =~= dir_ids(self@.dirs));
        }
        Ok(ids)
    }

    /// Remove the entire store root and recreate it empty.
    pub fn clear_all(&mut self) -> (r: Result<(), GistCacheError>)
        ensures
            r is Ok,
            final(self)@ == (StoreV { root_exists: true, dirs: Seq::empty(), loose: Seq::empty() }),
            store_wf(final(self)@),
    {
        self.root_exists = true;
        self.dirs = Vec::new();
        self.loose = Vec::new();
        proof {
            assert(self@.dirs =~= Seq::<GistDirV>::empty());
            assert(self@.loose =~= Seq::<CacheFileV>::empty());
            assert(self@ =~= (StoreV { root_exists: true, dirs: Seq::empty(), loose: Seq::empty() }));
        }
        Ok(())
    }

    /// Model a plain file that something other than the store dropped
    /// directly under the root. Enumeration skips it; size accounting and
    /// `clear_all` see it.
    pub fn add_loose_file(&mut self, name: &str, data: &str)
        requires
            store_wf(old(self)@),
            old(self)@.root_exists,
        ensures
            final(self)@ == (StoreV {
                loose: old(self)@.loose + seq![CacheFileV { name: name@, data: data@ }],
                ..old(self)@
            }),
            store_wf(final(self)@),
    {
        let ghost pre = self@;
        self.loose.push(CacheFile { name: String::from_str(name), data: String::from_str(data) });
        proof {
            assert(self@.loose =~= pre.loose + seq![CacheFileV { name: name@, data: data@ }]);
            assert(self@ =~= (StoreV {
                loose: old(self)@.loose + seq![CacheFileV { name: name@, data: data@ }],
                ..old(self)@
            }));
        }
    }

    /// Total byte length of a list of files.
    fn files_size_u64(files: &Vec<CacheFile>, Ghost(bound): Ghost<nat>) -> (r: u64)
        requires
            files_size(cfiles_view(files@)) <= bound,
            bound <= usize::MAX,
        ensures
            r == files_size(cfiles_view(files@)),
    {
        let ghost fseq = cfiles_view(files@);
        let mut sz: u64 = 0;
        let mut j: usize = 0;
        while j < files.len()
            invariant
                j <= files.len(),
                fseq == files@.map_values(|f: CacheFile| f@),
                fseq.len() == files.len(),
                files_size(fseq) <= bound,
                bound <= usize::MAX,
                sz == files_size(fseq.take(j as int)),
            decreases files.len() - j,
        {
            proof {
                lemma_files_size_take_step(fseq, j as int);
                lemma_files_size_take_le(fseq, j + 1);
            }
            let len = files[j].data.as_str().len();
            sz = sz + (len as u64);
            j = j + 1;
        }
        proof {
            assert(fseq.take(fseq.len() as int) =~= fseq);
        }
        sz
    }

    /// Total byte length of everything under the store root: every file in
    /// every gist directory, and any loose files. Returns 0 when the root
    /// does not exist (it then holds nothing).
    pub fn total_size(&self) -> (r: Result<u64, GistCacheError>)
        requires
            store_size(self@) <= usize::MAX,
        ensures
            r matches Ok(n) && n == store_size(self@),
    {
        let mut total: u64 = 0;
        let mut i: usize = 0;
        while i < self.dirs.len()
            invariant
                i <= self.dirs.len(),
                self@.dirs.len() == self.dirs.len(),
                store_size(self@) <= usize::MAX,
                total == dirs_size(self@.dirs.take(i as int)),
            decreases self.dirs.len() - i,
        {
            proof {
                lemma_dirs_size_take_step(self@.dirs, i as int);
                lemma_dirs_size_take_le(self@.dirs, i + 1);
            }
            let dsz = Self::files_size_u64(
                &self.dirs[i].files,
                Ghost(store_size(self@) as nat),
            );
            total = total + dsz;
            i = i + 1;
        }
        proof {
            assert(self@.dirs.take(self@.dirs.len() as int) =~= self@.dirs);
        }
        let loose_sz = Self::files_size_u64(&self.loose, Ghost(store_size(self@) as nat));
        Ok(total + loose_sz)
    }

    /// Whether a sweep with `options` at time `now` selects `gist_id`,
    /// judged against the records of `metadata_cache`.
    pub fn sweep_selects(
        gist_id: &str,
        metadata_cache: &GistCache,
        options: &CleanOptions,
        now: i64,
    ) -> (r: bool)
        ensures
            r == should_clean(gist_id@, metadata_cache@.gists, *options, now as int),
    {
        let ghost gv = metadata_cache@.gists;
        match crate::types::find_gist_index(&metadata_cache.gists, gist_id) {
            Option::Some(f) => {
                proof {
                    assert(gv[f as int] == metadata_cache.gists@[f as int]@);
                    assert forall|k: int| 0 <= k < f implies gv[k].id != gist_id@ by {
                        assert(gv[k] == metadata_cache.gists@[k]@);
                    }
                    lemma_first_gist_at(gv, gist_id@, f as int);
                }
                match options.older_than_days {
                    Option::Some(days) => {
                        let cutoff: i128 = (now as i128) - (days as i128) * 86400;
                        (metadata_cache.gists[f].updated_at as i128) < cutoff
                    },
                    Option::None => false,
                }
            },
            Option::None => {
                proof {
                    assert forall|k: int| 0 <= k < gv.len() implies gv[k].id != gist_id@ by {
                        assert(gv[k] == metadata_cache.gists@[k]@);
                    }
                    lemma_first_gist_none(gv, gist_id@);
                }
                options.orphaned
            },
        }
    }

    /// Sweep the store against the metadata index at time `now` (seconds
    /// since the epoch). Each cached gist is judged by two OR-combined
    /// criteria: orphaned (no index record, with `orphaned` set) and
    /// expired (an index record older than `older_than_days` days). The
    /// sizes of selected directories are measured before anything is
    /// removed; under `dry_run` the store is left untouched and the
    /// outcome only reports what a live sweep would remove.
    pub fn clean(
        &mut self,
        metadata_cache: &GistCache,
        options: &CleanOptions,
        now: i64,
    ) -> (r: Result<CleanResult, GistCacheError>)
        requires
            store_wf(old(self)@),
            store_size(old(self)@) <= usize::MAX,
        ensures
            r matches Ok(res) && {
                &&& res.deleted_gists@.map_values(|s: String| s@) == clean_selected(
                    old(self)@.dirs,
                    metadata_cache@.gists,
                    *options,
                    now as int,
                )
                &&& res.deleted_size == clean_freed(
                    old(self)@.dirs,
                    metadata_cache@.gists,
                    *options,
                    now as int,
                )
                &&& res.orphaned_files@.len() == 0
            },
            options.dry_run ==> final(self)@ == old(self)@,
            !options.dry_run ==> final(self)@ == (StoreV {
                dirs: clean_kept(old(self)@.dirs, metadata_cache@.gists, *options, now as int),
                ..old(self)@
            }),
            store_wf(final(self)@),
    {
        let ghost pre = self@;
        let ghost gists = metadata_cache@.gists;
        let ghost opts = *options;
        let mut deleted_gists: Vec<String> = Vec::new();
        let mut deleted_size: u64 = 0;
        let mut i: usize = 0;
        while i < self.dirs.len()
            invariant
                i <= self.dirs.len(),
                self@ == pre,
                pre.dirs.len() == self.dirs.len(),
                opts == *options,
                gists == metadata_cache@.gists,
                store_size(pre) <= usize::MAX,
                deleted_gists@.map_values(|s: String| s@) == clean_selected(
                    pre.dirs.take(i as int),
                    gists,
                    opts,
                    now as int,
                ),
                deleted_size == clean_freed(pre.dirs.take(i as int), gists, opts, now as int),
            decreases self.dirs.len() - i,
        {
            proof {
                lemma_clean_take_step(pre.dirs, gists, opts, now as int, i as int);
                lemma_clean_freed_le(pre.dirs.take(i + 1), gists, opts, now as int);
                lemma_dirs_size_take_le(pre.dirs, i + 1);
                lemma_dirs_size_take_step(pre.dirs, i as int);
            }
            let ghost olddel = deleted_gists@;
            if Self::sweep_selects(self.dirs[i].id.as_str(), metadata_cache, options, now) {
                proof {
                    lemma_files_size_take_le(pre.dirs[i as int].files, 0);
                }
                let dsz = Self::files_size_u64(
                    &self.dirs[i].files,
                    Ghost(store_size(pre) as nat),
                );
                deleted_size = deleted_size + dsz;
                deleted_gists.push(self.dirs[i].id.clone());
                proof {
                    assert(deleted_gists@.map_values(|s: String| s@) =~= olddel.map_values(
                        |s: String| s@,
                    ) + seq![pre.dirs[i as int].id]);
                }
            } else {
                proof {
                    assert(deleted_gists@.map_values(|s: String| s@) =~= clean_selected(
                        pre.dirs.take(i + 1),
                        gists,
                        opts,
                        now as int,
                    ));
                }
            }
            i = i + 1;
        }
        proof {
            assert(pre.dirs.take(pre.dirs.len() as int) =~= pre.dirs);
        }
        if !options.dry_run {
            let ghost predirs = self.dirs@;
            let ghost preloose = self.loose@;
            let ghost preroot = self@.root_exists;
            proof {
                assert(pre.dirs == cdirs_view(predirs));
            }
            let mut kept: Vec<GistDir> = Vec::new();
            let ghost processed = 0int;
            proof {
                assert(self.dirs@ =~= predirs.subrange(0, predirs.len() as int));
            }
            while self.dirs.len() > 0
                invariant
                    0 <= processed <= predirs.len(),
                    pre.dirs == cdirs_view(predirs),
                    pre.dirs.len() == predirs.len(),
                    self.dirs@ == predirs.subrange(processed, predirs.len() as int),
                    self.loose@ == preloose,
                    self@.root_exists == preroot,
                    opts == *options,
                    gists == metadata_cache@.gists,
                    cdirs_view(kept@) == clean_kept(
                        pre.dirs.take(processed),
                        gists,
                        opts,
                        now as int,
                    ),
                decreases self.dirs.len(),
            {
                proof {
                    lemma_clean_take_step(pre.dirs, gists, opts, now as int, processed);
                }
                let ghost oldkept = kept@;
                let d = self.dirs.remove(0);
                let ghost dv = d@;
                proof {
                    assert(d == predirs[processed]);
                    assert(self.dirs@ =~= predirs.subrange(processed + 1, predirs.len() as int));
                    assert(cdirs_view(predirs)[processed] == predirs[processed]@);
                    assert(dv == pre.dirs[processed]);
                }
                if !Self::sweep_selects(d.id.as_str(), metadata_cache, options, now) {
                    proof {
                        assert(d.id@ == dv.id);
                    }
                    kept.push(d);
                    proof {
                        assert(cdirs_view(kept@) =~= cdirs_view(oldkept) + seq![dv]);
                    }
                } else {
                    proof {
                        assert(d.id@ == dv.id);
                        assert(cdirs_view(kept@) =~= clean_kept(
                            pre.dirs.take(processed + 1),
                            gists,
                            opts,
                            now as int,
                        ));
                    }
                }
                proof {
                    processed = processed + 1;
                }
            }
            self.dirs = kept;
            proof {
                assert(processed == predirs.len());
                assert(pre.dirs.take(pre.dirs.len() as int) =~= pre.dirs);
                lemma_clean_kept_wf(pre.dirs, gists, opts, now as int);
                assert(self@ =~= (StoreV {
                    dirs: clean_kept(pre.dirs, gists, opts, now as int),
                    ..pre
                }));
            }
        }
        Ok(CleanResult { deleted_gists, deleted_size, orphaned_files: Vec::new() })
    }
}


// ---------------------------------------------------------------------
// Laws of the store model.
// ---------------------------------------------------------------------

/// Writing `(id, name)` makes that file's content the body everywhere the
/// directory list is later consulted.
pub proof fn lemma_file_lookup_put(files: Seq<CacheFileV>, name: Seq<char>, data: Seq<char>)
    ensures
        file_lookup(files_put(files, name, data), name) == Option::Some(data),
    decreases files.len(),
{
    if files.len() == 0 {
    } else if files[0].name == name {
    } else {
        lemma_file_lookup_put(files.drop_first(), name, data);
        assert((seq![files[0]] + files_put(files.drop_first(), name, data)).drop_first()
            =~= files_put(files.drop_first(), name, data));
    }
}

/// After a write, the written directory exists and holds the new body.
pub proof fn lemma_dir_lookup_put(
    dirs: Seq<GistDirV>,
    id: Seq<char>,
    name: Seq<char>,
    data: Seq<char>,
)
    ensures
        dir_lookup(dirs_put(dirs, id, name, data), id) == Option::Some(
            files_put(
                match dir_lookup(dirs, id) {
                    Option::Some(files) => files,
                    Option::None => Seq::empty(),
                },
                name,
                data,
            ),
        ),
    decreases dirs.len(),
{
    if dirs.len() == 0 {
        assert(files_put(Seq::<CacheFileV>::empty(), name, data) =~= seq![
            CacheFileV { name, data },
        ]);
    } else if dirs[0].id == id {
    } else {
        lemma_dir_lookup_put(dirs.drop_first(), id, name, data);
        assert((seq![dirs[0]] + dirs_put(dirs.drop_first(), id, name, data)).drop_first()
            =~= dirs_put(dirs.drop_first(), id, name, data));
    }
}

/// Round trip: after `write(id, f, body)`, a `read(id, f)` returns exactly
/// `body`, whatever the store held before.
pub proof fn lemma_write_read_round_trip(
    v: StoreV,
    id: Seq<char>,
    name: Seq<char>,
    data: Seq<char>,
)
    ensures
        store_lookup(store_write(v, id, name, data), id, name) == Option::Some(data),
{
    lemma_dir_lookup_put(v.dirs, id, name, data);
    match dir_lookup(v.dirs, id) {
        Option::Some(files) => {
            lemma_file_lookup_put(files, name, data);
        },
        Option::None => {
            lemma_file_lookup_put(Seq::empty(), name, data);
        },
    }
}

/// No directory named `id` survives its removal.
pub proof fn lemma_dirs_remove_no_id(dirs: Seq<GistDirV>, id: Seq<char>)
    ensures
        forall|k: int|
            0 <= k < dirs_remove(dirs, id).len() ==> #[trigger] dirs_remove(dirs, id)[k].id != id,
    decreases dirs.len(),
{
    if dirs.len() > 0 {
        lemma_dirs_remove_no_id(dirs.drop_first(), id);
        if dirs[0].id == id {
            assert(dirs_remove(dirs, id) == dirs_remove(dirs.drop_first(), id));
        } else {
            assert(dirs_remove(dirs, id) == seq![dirs[0]] + dirs_remove(dirs.drop_first(), id));
            assert(forall|k: int|
                1 <= k < dirs_remove(dirs, id).len() ==> #[trigger] dirs_remove(dirs, id)[k]
                    == dirs_remove(dirs.drop_first(), id)[k - 1]);
        }
    }
}

/// Idempotent delete: one deletion leaves no directory under `id`, so a
/// second deletion finds nothing and changes nothing.
pub proof fn lemma_delete_idempotent(v: StoreV, id: Seq<char>)
    ensures
        !has_dir(store_delete(v, id).dirs, id),
        store_delete(store_delete(v, id), id) == store_delete(v, id),
{
    lemma_dirs_remove_no_id(v.dirs, id);
    lemma_dir_lookup_none(dirs_remove(v.dirs, id), id);
    lemma_dirs_remove_none(dirs_remove(v.dirs, id), id);
    assert(store_delete(store_delete(v, id), id) =~= store_delete(v, id));
}

/// Self-healing: after `delete_gist(id)` nothing at all is cached under
/// `id`, however the directory's contents came to be there.
pub proof fn lemma_delete_heals(v: StoreV, id: Seq<char>, name: Seq<char>)
    ensures
        store_lookup(store_delete(v, id), id, name) is None,
{
    lemma_dirs_remove_no_id(v.dirs, id);
    lemma_dir_lookup_none(dirs_remove(v.dirs, id), id);
}

/// Enumeration ignores noise: a plain file dropped directly under the
/// store root changes nothing about which gist ids are listed.
pub proof fn lemma_list_ignores_loose(v: StoreV, name: Seq<char>, data: Seq<char>)
    ensures
        dir_ids(
            (StoreV { loose: v.loose + seq![CacheFileV { name, data }], ..v }).dirs,
        ) == dir_ids(v.dirs),
{
}

/// A dry run reports exactly what a live sweep with the same criteria
/// would delete and free; only the store mutation is withheld.
pub proof fn lemma_dry_run_reports_like_live(
    dirs: Seq<GistDirV>,
    gists: Seq<GistInfoV>,
    a: CleanOptions,
    b: CleanOptions,
    now: int,
)
    requires
        a.older_than_days == b.older_than_days,
        a.orphaned == b.orphaned,
    ensures
        clean_selected(dirs, gists, a, now) == clean_selected(dirs, gists, b, now),
        clean_freed(dirs, gists, a, now) == clean_freed(dirs, gists, b, now),
    decreases dirs.len(),
{
    if dirs.len() > 0 {
        lemma_dry_run_reports_like_live(dirs.drop_last(), gists, a, b, now);
    }
}

/// The sweep criteria combine by OR: an id is selected exactly when it is
/// orphaned (with `orphaned` set) or expired (with `older_than_days`
/// set); with neither criterion enabled nothing is ever selected.
pub proof fn lemma_clean_criteria_or(
    id: Seq<char>,
    gists: Seq<GistInfoV>,
    opts: CleanOptions,
    now: int,
)
    ensures
        should_clean(id, gists, opts, now) <==> ((opts.orphaned && !has_gist_id(gists, id)) || (
        opts.older_than_days matches Option::Some(d) && is_expired(id, gists, d as int, now))),
        (opts.older_than_days is None && !opts.orphaned) ==> !should_clean(id, gists, opts, now),
{
}

} // verus!
