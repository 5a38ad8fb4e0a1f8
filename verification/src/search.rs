//! Searching the metadata index: by id, filename or description, with
//! optional regular-expression, language and extension filters. Matching
//! on names and descriptions is case-insensitive under Unicode case
//! folding; the interactive picking of one result belongs to the
//! surrounding program.

use crate::error::GistCacheError;
use crate::text::{
    contains_str, ends_with_str, has_substring, is_suffix_of, lower_of, lowercase, str_eq,
};
use crate::types::{gists_view, GistFileV, GistInfo, GistInfoV};
use vstd::prelude::*;
use vstd::string::*;

verus! {

/// What a query is matched against.
#[derive(Debug, Clone, Copy)]
pub enum SearchMode {
    /// Decide from the query's shape: a 32-digit hex string is an id.
    Auto,
    /// Exact id comparison.
    Id,
    /// Case-insensitive filename substring.
    Filename,
    /// Case-insensitive description substring.
    Description,
    /// Filename or description substring.
    Both,
}

/// Optional narrowing filters applied after the mode match.
pub struct SearchOptions {
    /// Keep only gists whose description or a filename matches this
    /// regular expression.
    pub regex: Option<String>,
    /// Keep only gists with a file in this language.
    pub language: Option<String>,
    /// Keep only gists with a file carrying this extension.
    pub extension: Option<String>,
}

impl Default for SearchOptions {
    fn default() -> (r: Self)
        ensures
            r.regex is None,
            r.language is None,
            r.extension is None,
    {
        SearchOptions { regex: None, language: None, extension: None }
    }
}

/// A query with its mode and filters.
pub struct SearchQuery {
    /// The search keyword.
    pub query: String,
    /// What to match it against.
    pub mode: SearchMode,
    /// The narrowing filters.
    pub options: SearchOptions,
}

// ---------------------------------------------------------------------
// Trusted regular-expression hooks.
// ---------------------------------------------------------------------

/// Whether a pattern is a valid regular expression: a function of the
/// pattern alone.
pub uninterp spec fn re_valid(p: Seq<char>) -> bool;

/// Whether a valid pattern matches somewhere in a text: a function of the
/// two alone.
pub uninterp spec fn re_match(p: Seq<char>, t: Seq<char>) -> bool;

/// Relies on regex::Regex::new: whether the pattern compiles.
#[verifier::external_body]
fn regex_pattern_valid(p: &str) -> (r: bool)
    ensures
        r == re_valid(p@),
{
    regex::Regex::new(p).is_ok()
}

/// Relies on regex::Regex::new and regex::Regex::is_match: whether the
/// pattern matches somewhere in the text.
#[verifier::external_body]
fn regex_matches(p: &str, t: &str) -> (r: bool)
    requires
        re_valid(p@),
    ensures
        r == re_match(p@, t@),
{
    regex::Regex::new(p).unwrap().is_match(t)
}

// ---------------------------------------------------------------------
// What a search selects.
// ---------------------------------------------------------------------

/// A hexadecimal digit.
pub open spec fn is_hex_digit(c: char) -> bool {
    ('0' <= c <= '9') || ('a' <= c <= 'f') || ('A' <= c <= 'F')
}

/// The mode an automatic query falls into: 32 hex digits look like an id,
/// everything else searches filenames and descriptions.
pub open spec fn spec_detect_mode(q: Seq<char>) -> SearchMode {
    if q.len() == 32 && (forall|i: int| 0 <= i < q.len() ==> is_hex_digit(#[trigger] q[i])) {
        SearchMode::Id
    } else {
        SearchMode::Both
    }
}

/// Case-insensitive filename substring match against a folded query.
pub open spec fn matches_filename(g: GistInfoV, ql: Seq<char>) -> bool {
    exists|j: int|
        0 <= j < g.files.len() && has_substring(lower_of(#[trigger] g.files[j].filename), ql)
}

/// Case-insensitive description substring match against a folded query.
pub open spec fn matches_description(g: GistInfoV, ql: Seq<char>) -> bool {
    match g.description {
        Option::Some(d) => has_substring(lower_of(d), ql),
        Option::None => false,
    }
}

/// Whether a record matches the query under a (resolved) mode.
pub open spec fn matches_mode(g: GistInfoV, q: Seq<char>, mode: SearchMode) -> bool {
    match mode {
        SearchMode::Id => g.id == q,
        SearchMode::Filename => matches_filename(g, lower_of(q)),
        SearchMode::Description => matches_description(g, lower_of(q)),
        SearchMode::Both => matches_description(g, lower_of(q)) || matches_filename(
            g,
            lower_of(q),
        ),
        SearchMode::Auto => if spec_detect_mode(q) is Id {
            g.id == q
        } else {
            matches_description(g, lower_of(q)) || matches_filename(g, lower_of(q))
        },
    }
}

/// Whether a record passes the regular-expression filter: the pattern
/// matches the description or some filename.
pub open spec fn passes_regex(g: GistInfoV, p: Seq<char>) -> bool {
    ||| (g.description matches Option::Some(d) && re_match(p, d))
    ||| exists|j: int| 0 <= j < g.files.len() && re_match(p, #[trigger] g.files[j].filename)
}

/// Whether a record passes the language filter: some file's language
/// equals the wanted one, case-insensitively.
pub open spec fn passes_language(g: GistInfoV, lang: Seq<char>) -> bool {
    exists|j: int|
        0 <= j < g.files.len() && ((#[trigger] g.files[j].language) matches Option::Some(l)
            && lower_of(l) == lower_of(lang))
}

/// An extension argument with its leading dot supplied if missing.
pub open spec fn dotted(e: Seq<char>) -> Seq<char> {
    if e.len() > 0 && e[0] == '.' {
        e
    } else {
        seq!['.'] + e
    }
}

/// Whether a record passes the extension filter: some filename ends with
/// the dotted extension, case-insensitively.
pub open spec fn passes_extension(g: GistInfoV, e: Seq<char>) -> bool {
    exists|j: int|
        0 <= j < g.files.len() && is_suffix_of(
            lower_of(dotted(e)),
            lower_of(#[trigger] g.files[j].filename),
        )
}

/// Whether a search keeps a record: the mode match and every enabled
/// filter.
pub open spec fn spec_selected(
    g: GistInfoV,
    q: Seq<char>,
    mode: SearchMode,
    regex: Option<Seq<char>>,
    language: Option<Seq<char>>,
    extension: Option<Seq<char>>,
) -> bool {
    &&& matches_mode(g, q, mode)
    &&& (regex matches Option::Some(p) ==> passes_regex(g, p))
    &&& (language matches Option::Some(l) ==> passes_language(g, l))
    &&& (extension matches Option::Some(e) ==> passes_extension(g, e))
}

/// The records a search keeps, in index order.
pub open spec fn spec_search_results(
    gists: Seq<GistInfoV>,
    q: Seq<char>,
    mode: SearchMode,
    regex: Option<Seq<char>>,
    language: Option<Seq<char>>,
    extension: Option<Seq<char>>,
) -> Seq<GistInfoV>
    decreases gists.len(),
{
    if gists.len() == 0 {
        Seq::empty()
    } else {
        spec_search_results(gists.drop_last(), q, mode, regex, language, extension) + (
        if spec_selected(gists.last(), q, mode, regex, language, extension) {
            seq![gists.last()]
        } else {
            Seq::empty()
        })
    }
}

/// Unfolding the kept records over a prefix, one record at a time.
proof fn lemma_search_take_step(
    gists: Seq<GistInfoV>,
    q: Seq<char>,
    mode: SearchMode,
    regex: Option<Seq<char>>,
    language: Option<Seq<char>>,
    extension: Option<Seq<char>>,
    i: int,
)
    requires
        0 <= i < gists.len(),
    ensures
        spec_search_results(gists.take(i + 1), q, mode, regex, language, extension)
            == spec_search_results(gists.take(i), q, mode, regex, language, extension) + (
        if spec_selected(gists[i], q, mode, regex, language, extension) {
            seq![gists[i]]
        } else {
            Seq::empty()
        }),
{
    assert(gists.take(i + 1).drop_last() =~= gists.take(i));
    assert(gists.take(i + 1).last() == gists[i]);
}

/// The view of an optional text field.
pub open spec fn opt_view(o: Option<String>) -> Option<Seq<char>> {
    match o {
        Option::Some(s) => Option::Some(s@),
        Option::None => Option::None,
    }
}

impl SearchQuery {
    /// A query under the given mode, with no filters.
    pub fn new(query: String, mode: SearchMode) -> (r: Self)
        ensures
            r.query@ == query@,
            r.mode == mode,
            r.options.regex is None,
            r.options.language is None,
            r.options.extension is None,
    {
        SearchQuery { query, mode, options: SearchOptions::default() }
    }

    /// A query under the given mode and filters.
    pub fn new_with_options(query: String, mode: SearchMode, options: SearchOptions) -> (r: Self)
        ensures
            r.query@ == query@,
            r.mode == mode,
            opt_view(r.options.regex) == opt_view(options.regex),
            opt_view(r.options.language) == opt_view(options.language),
            opt_view(r.options.extension) == opt_view(options.extension),
    {
        SearchQuery { query, mode, options }
    }

    /// The mode an automatic query falls into.
    pub fn detect_mode(&self) -> (r: SearchMode)
        ensures
            r == spec_detect_mode(self.query@),
    {
        let q = self.query.as_str();
        let len = q.unicode_len();
        if len != 32 {
            return SearchMode::Both;
        }
        let mut i: usize = 0;
        while i < len
            invariant
                i <= len,
                len == q@.len(),
                q@ == self.query@,
                forall|k: int| 0 <= k < i ==> is_hex_digit(#[trigger] q@[k]),
            decreases len - i,
        {
            let c = q.get_char(i);
            let hex = ('0' <= c && c <= '9') || ('a' <= c && c <= 'f') || ('A' <= c && c <= 'F');
            if !hex {
                return SearchMode::Both;
            }
            i = i + 1;
        }
        SearchMode::Id
    }

    /// Whether a record matches the query under a resolved mode.
    fn gist_matches_mode(&self, g: &GistInfo, mode: SearchMode, ql: &str) -> (r: bool)
        requires
            !(mode is Auto),
            ql@ == lower_of(self.query@),
        ensures
            r == matches_mode(g@, self.query@, mode),
    {
        match mode {
            SearchMode::Id => str_eq(g.id.as_str(), self.query.as_str()),
            SearchMode::Filename => Self::any_filename_contains(g, ql),
            SearchMode::Description => Self::description_contains(g, ql),
            SearchMode::Both => {
                let d = Self::description_contains(g, ql);
                if d {
                    true
                } else {
                    Self::any_filename_contains(g, ql)
                }
            },
            SearchMode::Auto => false,
        }
    }

    /// Whether some filename contains the folded query.
    fn any_filename_contains(g: &GistInfo, ql: &str) -> (r: bool)
        ensures
            r == matches_filename(g@, ql@),
    {
        let ghost fv = g@.files;
        let mut j: usize = 0;
        while j < g.files.len()
            invariant
                j <= g.files.len(),
                fv == g@.files,
                fv.len() == g.files.len(),
                forall|k: int| 0 <= k < j ==> !has_substring(lower_of(#[trigger] fv[k].filename), ql@),
            decreases g.files.len() - j,
        {
            proof {
                assert(fv[j as int] == g.files@[j as int]@);
            }
            let low = lowercase(g.files[j].filename.as_str());
            if contains_str(low.as_str(), ql) {
                proof {
                    assert(has_substring(lower_of(g@.files[j as int].filename), ql@));
                }
                return true;
            }
            j = j + 1;
        }
        false
    }

    /// Whether the description contains the folded query.
    fn description_contains(g: &GistInfo, ql: &str) -> (r: bool)
        ensures
            r == matches_description(g@, ql@),
    {
        match &g.description {
            Option::Some(d) => {
                let low = lowercase(d.as_str());
                contains_str(low.as_str(), ql)
            },
            Option::None => false,
        }
    }

    /// Whether the pattern matches the description or some filename.
    fn gist_passes_regex(g: &GistInfo, pattern: &str) -> (r: bool)
        requires
            re_valid(pattern@),
        ensures
            r == passes_regex(g@, pattern@),
    {
        match &g.description {
            Option::Some(d) => {
                if regex_matches(pattern, d.as_str()) {
                    return true;
                }
            },
            Option::None => {},
        }
        let ghost fv = g@.files;
        let mut j: usize = 0;
        while j < g.files.len()
            invariant
                j <= g.files.len(),
                fv == g@.files,
                fv.len() == g.files.len(),
                re_valid(pattern@),
                forall|k: int| 0 <= k < j ==> !re_match(pattern@, #[trigger] fv[k].filename),
            decreases g.files.len() - j,
        {
            proof {
                assert(fv[j as int] == g.files@[j as int]@);
            }
            if regex_matches(pattern, g.files[j].filename.as_str()) {
                proof {
                    assert(re_match(pattern@, g@.files[j as int].filename));
                }
                return true;
            }
            j = j + 1;
        }
        false
    }

    /// Whether some file carries the wanted language, case-insensitively.
    fn gist_passes_language(g: &GistInfo, lang: &str) -> (r: bool)
        ensures
            r == passes_language(g@, lang@),
    {
        let lang_low = lowercase(lang);
        let ghost fv = g@.files;
        let mut j: usize = 0;
        while j < g.files.len()
            invariant
                j <= g.files.len(),
                fv == g@.files,
                fv.len() == g.files.len(),
                lang_low@ == lower_of(lang@),
                forall|k: int|
                    0 <= k < j ==> !((#[trigger] fv[k].language) matches Option::Some(l)
                        && lower_of(l) == lower_of(lang@)),
            decreases g.files.len() - j,
        {
            proof {
                assert(fv[j as int] == g.files@[j as int]@);
            }
            match &g.files[j].language {
                Option::Some(l) => {
                    let low = lowercase(l.as_str());
                    if str_eq(low.as_str(), lang_low.as_str()) {
                        return true;
                    }
                },
                Option::None => {},
            }
            j = j + 1;
        }
        false
    }

    /// Whether some filename ends with the dotted extension,
    /// case-insensitively.
    fn gist_passes_extension(g: &GistInfo, extension: &str) -> (r: bool)
        ensures
            r == passes_extension(g@, extension@),
    {
        let elen = extension.unicode_len();
        let dotted_ext: String = if elen > 0 && extension.get_char(0) == '.' {
            extension.to_owned()
        } else {
            proof {
                reveal_strlit(".");
            }
            let mut s = String::from_str(".");
            s.append(extension);
            proof {
                assert(s@ =~= dotted(extension@));
            }
            s
        };
        let ext_low = lowercase(dotted_ext.as_str());
        let ghost fv = g@.files;
        let mut j: usize = 0;
        while j < g.files.len()
            invariant
                j <= g.files.len(),
                fv == g@.files,
                fv.len() == g.files.len(),
                ext_low@ == lower_of(dotted(extension@)),
                forall|k: int|
                    0 <= k < j ==> !is_suffix_of(
                        lower_of(dotted(extension@)),
                        lower_of(#[trigger] fv[k].filename),
                    ),
            decreases g.files.len() - j,
        {
            proof {
                assert(fv[j as int] == g.files@[j as int]@);
            }
            let low = lowercase(g.files[j].filename.as_str());
            if ends_with_str(low.as_str(), ext_low.as_str()) {
                proof {
                    assert(is_suffix_of(
                        lower_of(dotted(extension@)),
                        lower_of(g@.files[j as int].filename),
                    ));
                }
                return true;
            }
            j = j + 1;
        }
        false
    }

    /// Run the search: resolve an automatic mode, match every record, and
    /// apply the enabled filters. Fails with `InvalidPattern` exactly when
    /// a regular-expression filter is present and does not compile.
    pub fn search(&self, gists: &Vec<GistInfo>) -> (r: Result<Vec<GistInfo>, GistCacheError>)
        ensures
            ({
                let mode = match self.mode {
                    SearchMode::Auto => spec_detect_mode(self.query@),
                    m => m,
                };
                match r {
                    Result::Ok(out) => {
                        &&& (self.options.regex matches Option::Some(p) ==> re_valid(p@))
                        &&& gists_view(out@) == spec_search_results(
                            gists_view(gists@),
                            self.query@,
                            mode,
                            opt_view(self.options.regex),
                            opt_view(self.options.language),
                            opt_view(self.options.extension),
                        )
                    },
                    Result::Err(e) => e is InvalidPattern && (self.options.regex matches
                        Option::Some(p) && !re_valid(p@)),
                }
            }),
    {
        let mode = match self.mode {
            SearchMode::Auto => self.detect_mode(),
            SearchMode::Id => SearchMode::Id,
            SearchMode::Filename => SearchMode::Filename,
            SearchMode::Description => SearchMode::Description,
            SearchMode::Both => SearchMode::Both,
        };
        match &self.options.regex {
            Option::Some(p) => {
                if !regex_pattern_valid(p.as_str()) {
                    return Err(GistCacheError::InvalidPattern(p.clone()));
                }
            },
            Option::None => {},
        }
        let ql = lowercase(self.query.as_str());
        let ghost gv = gists_view(gists@);
        let ghost rx = opt_view(self.options.regex);
        let ghost lg = opt_view(self.options.language);
        let ghost ex = opt_view(self.options.extension);
        let mut out: Vec<GistInfo> = Vec::new();
        let mut i: usize = 0;
        proof {
            assert(gists_view(out@) =~= spec_search_results(
                gv.take(0),
                self.query@,
                mode,
                rx,
                lg,
                ex,
            ));
        }
        while i < gists.len()
            invariant
                i <= gists.len(),
                gv == gists_view(gists@),
                gv.len() == gists.len(),
                !(mode is Auto),
                mode == (match self.mode {
                    SearchMode::Auto => spec_detect_mode(self.query@),
                    m => m,
                }),
                ql@ == lower_of(self.query@),
                rx == opt_view(self.options.regex),
                lg == opt_view(self.options.language),
                ex == opt_view(self.options.extension),
                rx matches Option::Some(p) ==> re_valid(p),
                gists_view(out@) == spec_search_results(
                    gv.take(i as int),
                    self.query@,
                    mode,
                    rx,
                    lg,
                    ex,
                ),
            decreases gists.len() - i,
        {
            proof {
                lemma_search_take_step(gv, self.query@, mode, rx, lg, ex, i as int);
                assert(gv[i as int] == gists@[i as int]@);
            }
            let g = &gists[i];
            let mut keep = self.gist_matches_mode(g, mode, ql.as_str());
            if keep {
                match &self.options.regex {
                    Option::Some(p) => {
                        keep = Self::gist_passes_regex(g, p.as_str());
                    },
                    Option::None => {},
                }
            }
            if keep {
                match &self.options.language {
                    Option::Some(l) => {
                        keep = Self::gist_passes_language(g, l.as_str());
                    },
                    Option::None => {},
                }
            }
            if keep {
                match &self.options.extension {
                    Option::Some(e) => {
                        keep = Self::gist_passes_extension(g, e.as_str());
                    },
                    Option::None => {},
                }
            }
            let ghost prev = out@;
            if keep {
                out.push(g.clone());
                proof {
                    assert(gists_view(out@) =~= gists_view(prev) + seq![gv[i as int]]);
                }
            } else {
                proof {
                    assert(gists_view(out@) =~= spec_search_results(
                        gv.take(i + 1),
                        self.query@,
                        mode,
                        rx,
                        lg,
                        ex,
                    ));
                }
            }
            i = i + 1;
        }
        proof {
            assert(gv.take(gv.len() as int) =~= gv);
        }
        Ok(out)
    }
}

} // verus!
