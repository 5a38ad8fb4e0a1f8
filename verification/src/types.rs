//! The data model of the metadata index: one record per gist, each with a
//! list of named files, and the index header that is persisted beside them.
//!
//! Every executable type has a mathematical view (`..V` structs over `Seq`
//! and `int`) that the contracts of the store and of the synchronizer are
//! stated against. Timestamps are whole seconds since the Unix epoch.

use crate::error::GistCacheError;
use vstd::prelude::*;
use vstd::string::*;

verus! {

/// Mathematical view of [`GistFile`].
#[verifier::ext_equal]
pub struct GistFileV {
    pub filename: Seq<char>,
    pub language: Option<Seq<char>>,
    pub size: nat,
}

/// One named file of a gist, as the metadata index describes it.
#[derive(Debug)]
pub struct GistFile {
    pub filename: String,
    pub language: Option<String>,
    pub size: usize,
}

impl View for GistFile {
    type V = GistFileV;

    open spec fn view(&self) -> GistFileV {
        GistFileV {
            filename: self.filename@,
            language: match self.language {
                Option::Some(l) => Option::Some(l@),
                Option::None => Option::None,
            },
            size: self.size as nat,
        }
    }
}

impl Clone for GistFile {
    fn clone(&self) -> (r: Self)
        ensures
            r@ == self@,
    {
        GistFile {
            filename: self.filename.clone(),
            language: match &self.language {
                Option::Some(l) => Option::Some(l.clone()),
                Option::None => Option::None,
            },
            size: self.size,
        }
    }
}

/// Mathematical view of [`GistInfo`].
#[verifier::ext_equal]
pub struct GistInfoV {
    pub id: Seq<char>,
    pub description: Option<Seq<char>>,
    pub files: Seq<GistFileV>,
    pub updated_at: int,
    pub public: bool,
    pub html_url: Seq<char>,
}

/// One record of the metadata index: a gist with its stable id, its files,
/// and the timestamp of its last remote update (seconds since the epoch).
#[derive(Debug)]
pub struct GistInfo {
    pub id: String,
    pub description: Option<String>,
    pub files: Vec<GistFile>,
    pub updated_at: i64,
    pub public: bool,
    pub html_url: String,
}

impl View for GistInfo {
    type V = GistInfoV;

    open spec fn view(&self) -> GistInfoV {
        GistInfoV {
            id: self.id@,
            description: match self.description {
                Option::Some(d) => Option::Some(d@),
                Option::None => Option::None,
            },
            files: self.files@.map_values(|f: GistFile| f@),
            updated_at: self.updated_at as int,
            public: self.public,
            html_url: self.html_url@,
        }
    }
}

impl Clone for GistInfo {
    fn clone(&self) -> (r: Self)
        ensures
            r@ == self@,
    {
        let mut files: Vec<GistFile> = Vec::new();
        let mut i: usize = 0;
        while i < self.files.len()
            invariant
                i <= self.files.len(),
                files@.len() == i,
                forall|j: int| 0 <= j < i ==> files@[j]@ == self.files@[j]@,
            decreases self.files.len() - i,
        {
            files.push(self.files[i].clone());
            i = i + 1;
        }
        let r = GistInfo {
            id: self.id.clone(),
            description: match &self.description {
                Option::Some(d) => Option::Some(d.clone()),
                Option::None => Option::None,
            },
            files,
            updated_at: self.updated_at,
            public: self.public,
            html_url: self.html_url.clone(),
        };
        proof {
            assert(r@.files =~= self@.files);
            assert(r@ =~= self@);
        }
        r
    }
}

/// Mathematical view of [`CacheMetadata`].
#[verifier::ext_equal]
pub struct CacheMetadataV {
    pub last_updated: int,
    pub total_count: nat,
    pub github_user: Seq<char>,
}

/// The header of the persisted metadata index.
#[derive(Debug)]
pub struct CacheMetadata {
    pub last_updated: i64,
    pub total_count: usize,
    pub github_user: String,
}

impl View for CacheMetadata {
    type V = CacheMetadataV;

    open spec fn view(&self) -> CacheMetadataV {
        CacheMetadataV {
            last_updated: self.last_updated as int,
            total_count: self.total_count as nat,
            github_user: self.github_user@,
        }
    }
}

impl Clone for CacheMetadata {
    fn clone(&self) -> (r: Self)
        ensures
            r@ == self@,
    {
        CacheMetadata {
            last_updated: self.last_updated,
            total_count: self.total_count,
            github_user: self.github_user.clone(),
        }
    }
}

/// Mathematical view of [`GistCache`].
#[verifier::ext_equal]
pub struct GistCacheV {
    pub metadata: CacheMetadataV,
    pub gists: Seq<GistInfoV>,
}

/// The whole metadata index: header plus one record per known gist.
#[derive(Debug)]
pub struct GistCache {
    pub metadata: CacheMetadata,
    pub gists: Vec<GistInfo>,
}

impl View for GistCache {
    type V = GistCacheV;

    open spec fn view(&self) -> GistCacheV {
        GistCacheV { metadata: self.metadata@, gists: gists_view(self.gists@) }
    }
}

/// The views of a sequence of records.
pub open spec fn gists_view(s: Seq<GistInfo>) -> Seq<GistInfoV> {
    s.map_values(|g: GistInfo| g@)
}

/// Whether some record in `gists` carries the id `id`.
pub open spec fn has_gist_id(gists: Seq<GistInfoV>, id: Seq<char>) -> bool {
    exists|i: int| 0 <= i < gists.len() && gists[i].id == id
}

/// The first record in `gists` carrying the id `id`, if any; mirrors a
/// front-to-back search of the index.
pub open spec fn first_gist_with_id(gists: Seq<GistInfoV>, id: Seq<char>) -> Option<GistInfoV>
    decreases gists.len(),
{
    if gists.len() == 0 {
        Option::None
    } else if gists[0].id == id {
        Option::Some(gists[0])
    } else {
        first_gist_with_id(gists.drop_first(), id)
    }
}

/// A first match at index `i` settles `first_gist_with_id`.
pub proof fn lemma_first_gist_at(gists: Seq<GistInfoV>, id: Seq<char>, i: int)
    requires
        0 <= i < gists.len(),
        gists[i].id == id,
        forall|k: int| 0 <= k < i ==> gists[k].id != id,
    ensures
        first_gist_with_id(gists, id) == Option::Some(gists[i]),
    decreases i,
{
    if i > 0 {
        lemma_first_gist_at(gists.drop_first(), id, i - 1);
    }
}

/// No match anywhere settles `first_gist_with_id` to `None`.
pub proof fn lemma_first_gist_none(gists: Seq<GistInfoV>, id: Seq<char>)
    requires
        forall|k: int| 0 <= k < gists.len() ==> gists[k].id != id,
    ensures
        first_gist_with_id(gists, id) is None,
    decreases gists.len(),
{
    if gists.len() > 0 {
        lemma_first_gist_none(gists.drop_first(), id);
    }
}

/// At most one record per id: the index invariant.
pub open spec fn gist_ids_unique(gists: Seq<GistInfoV>) -> bool {
    forall|i: int, j: int| 0 <= i < j < gists.len() ==> gists[i].id != gists[j].id
}

/// A well-formed index: the recorded count matches the number of records
/// and no id occurs twice.
pub open spec fn index_wf(c: GistCacheV) -> bool {
    &&& c.metadata.total_count == c.gists.len()
    &&& gist_ids_unique(c.gists)
}


/// The index of the first record carrying `gist_id`, if any.
pub fn find_gist_index(gists: &Vec<GistInfo>, gist_id: &str) -> (r: Option<usize>)
    ensures
        match r {
            Option::Some(i) => {
                &&& i < gists@.len()
                &&& gists@[i as int]@.id == gist_id@
                &&& forall|k: int| 0 <= k < i ==> gists@[k]@.id != gist_id@
            },
            Option::None => forall|k: int| 0 <= k < gists@.len() ==> gists@[k]@.id != gist_id@,
        },
{
    let mut i: usize = 0;
    while i < gists.len()
        invariant
            i <= gists.len(),
            forall|k: int| 0 <= k < i ==> gists@[k]@.id != gist_id@,
        decreases gists.len() - i,
    {
        if crate::text::str_eq(gists[i].id.as_str(), gist_id) {
            return Some(i);
        }
        i = i + 1;
    }
    None
}


/// Build one index record from plain parts, decoding the RFC 3339
/// timestamp text that the remote protocol and the persisted index carry.
/// Fails exactly when the text does not denote a timestamp.
pub fn gist_record(
    id: String,
    description: Option<String>,
    files: Vec<GistFile>,
    updated_at_text: &str,
    public: bool,
    html_url: String,
) -> (r: Result<GistInfo, GistCacheError>)
    ensures
        match r {
            Result::Ok(g) => {
                &&& crate::time::ts_of_rfc3339(updated_at_text@) == Option::Some(
                    g.updated_at as int,
                )
                &&& g.id@ == id@
                &&& (match g.description {
                    Option::Some(d) => description matches Option::Some(e) && d@ == e@,
                    Option::None => description is None,
                })
                &&& g.files@ == files@
                &&& g.public == public
                &&& g.html_url@ == html_url@
            },
            Result::Err(e) => e is CacheParse && crate::time::ts_of_rfc3339(updated_at_text@)
                is None,
        },
{
    match crate::time::parse_timestamp(updated_at_text) {
        Option::Some(ts) => Ok(
            GistInfo { id, description, files, updated_at: ts, public, html_url },
        ),
        Option::None => {
            let mut msg = String::from_str("bad timestamp: ");
            msg.append(updated_at_text);
            Err(GistCacheError::CacheParse(msg))
        },
    }
}

} // verus!
