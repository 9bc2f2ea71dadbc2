//! File search: which entries of a walked tree a query admits, and
//! the excerpt shown for a match inside a file's text.

use vstd::prelude::*;
use vstd::string::*;
use crate::file_item::{display_name, lower_extension, Timestamp};
use crate::file_manager::IoFault;
use crate::paths::{extension, file_name};
use crate::pattern::{match_position, regex_accepts, regex_matches, Pattern};
use crate::text::{
    chars_of,
    contains_text,
    find_first,
    first_occurrence,
    lowercase,
    occurs_at,
    same_text,
    text_contains,
    to_lower,
};

verus! {

/// What to look for, and which entries to consider.
pub struct SearchQuery {
    pub pattern: String,
    pub is_regex: bool,
    pub case_sensitive: bool,
    pub search_in_content: bool,
    pub file_types: Vec<String>,
    pub size_min: Option<u64>,
    pub size_max: Option<u64>,
    pub modified_after: Option<Timestamp>,
    pub modified_before: Option<Timestamp>,
}

impl Default for SearchQuery {
    fn default() -> (q: SearchQuery)
        ensures
            q.pattern@.len() == 0,
            !q.is_regex,
            !q.case_sensitive,
            !q.search_in_content,
            q.file_types@.len() == 0,
            q.size_min.is_none(),
            q.size_max.is_none(),
            q.modified_after.is_none(),
            q.modified_before.is_none(),
    {
        SearchQuery {
            pattern: String::new(),
            is_regex: false,
            case_sensitive: false,
            search_in_content: false,
            file_types: Vec::new(),
            size_min: None,
            size_max: None,
            modified_after: None,
            modified_before: None,
        }
    }
}

/// One entry that the query admitted.
#[derive(Debug)]
pub struct SearchResult {
    pub path: String,
    pub file_name: String,
    pub size: u64,
    pub modified: Timestamp,
    pub match_context: Option<String>,
}

/// What a `stat` of a walked entry reported.
#[derive(Clone, Copy, Debug)]
pub struct EntryStat {
    pub is_file: bool,
    pub size: u64,
    pub modified: Timestamp,
}

/// One entry met while walking the tree. `stat` is absent where the
/// entry could not be examined; `content` holds the text of a file
/// that was read for a content search.
#[derive(Debug)]
pub struct Candidate {
    pub path: String,
    pub stat: Option<EntryStat>,
    pub content: Option<String>,
}

/// Why a search came to nothing.
#[derive(Clone, Copy, Debug, PartialEq, Eq, Structural)]
pub enum SearchError {
    InvalidPattern,
    PermissionDenied,
    IoError,
}

/// How many characters of context an excerpt shows on each side.
pub const CONTEXT_CHARS: usize = 50;

/// Whether an extension marks a file whose text may be searched.
pub open spec fn is_text_extension(e: Seq<char>) -> bool {
    e == "txt"@
        || e == "md"@
        || e == "rst"@
        || e == "log"@
        || e == "cfg"@
        || e == "conf"@
        || e == "ini"@
        || e == "json"@
        || e == "xml"@
        || e == "yaml"@
        || e == "yml"@
        || e == "toml"@
        || e == "rs"@
        || e == "py"@
        || e == "js"@
        || e == "ts"@
        || e == "html"@
        || e == "css"@
        || e == "scss"@
        || e == "c"@
        || e == "cpp"@
        || e == "h"@
        || e == "hpp"@
        || e == "java"@
        || e == "go"@
        || e == "php"@
        || e == "rb"@
        || e == "pl"@
        || e == "sh"@
        || e == "bash"@
        || e == "ps1"@
        || e == "bat"@
        || e == "cmd"@
}

/// Whether an extension marks a file whose text may be searched.
pub fn is_text_file(e: &str) -> (r: bool)
    ensures
        r == is_text_extension(e@),
{
    same_text(e, "txt")
        || same_text(e, "md")
        || same_text(e, "rst")
        || same_text(e, "log")
        || same_text(e, "cfg")
        || same_text(e, "conf")
        || same_text(e, "ini")
        || same_text(e, "json")
        || same_text(e, "xml")
        || same_text(e, "yaml")
        || same_text(e, "yml")
        || same_text(e, "toml")
        || same_text(e, "rs")
        || same_text(e, "py")
        || same_text(e, "js")
        || same_text(e, "ts")
        || same_text(e, "html")
        || same_text(e, "css")
        || same_text(e, "scss")
        || same_text(e, "c")
        || same_text(e, "cpp")
        || same_text(e, "h")
        || same_text(e, "hpp")
        || same_text(e, "java")
        || same_text(e, "go")
        || same_text(e, "php")
        || same_text(e, "rb")
        || same_text(e, "pl")
        || same_text(e, "sh")
        || same_text(e, "bash")
        || same_text(e, "ps1")
        || same_text(e, "bat")
        || same_text(e, "cmd")
}

/// The pattern handed to the expression compiler: the query's own,
/// behind the inline flag for case-insensitivity where case does not
/// matter.
pub open spec fn effective_pattern(q: SearchQuery) -> Seq<char> {
    if q.case_sensitive {
        q.pattern@
    } else {
        "(?i)"@ + q.pattern@
    }
}

/// Whether a name satisfies the query's pattern.
pub open spec fn name_hit(q: SearchQuery, name: Seq<char>) -> bool {
    if q.is_regex {
        regex_matches(effective_pattern(q), name)
    } else if q.case_sensitive {
        contains_text(name, q.pattern@)
    } else {
        contains_text(lowercase(name), lowercase(q.pattern@))
    }
}

/// Whether a name satisfies the query's pattern, given the name and
/// the pattern in lowercase and, for a regular expression, the
/// verdict of the expression on the name.
pub open spec fn name_rule(
    q: SearchQuery,
    name: Seq<char>,
    folded_name: Seq<char>,
    folded_pattern: Seq<char>,
    verdict: Option<bool>,
) -> bool {
    if q.is_regex {
        verdict == Some(true)
    } else if q.case_sensitive {
        contains_text(name, q.pattern@)
    } else {
        contains_text(folded_name, folded_pattern)
    }
}

/// Tests a name against the query's pattern. A regular expression
/// goes by `verdict`; a plain pattern must stand in the name, in
/// lowercase where case does not matter.
pub fn name_test(
    q: &SearchQuery,
    name: &str,
    folded_name: &str,
    folded_pattern: &str,
    verdict: Option<bool>,
) -> (r: bool)
    ensures
        r == name_rule(*q, name@, folded_name@, folded_pattern@, verdict),
{
    if q.is_regex {
        match verdict {
            Some(v) => v,
            None => false,
        }
    } else if q.case_sensitive {
        text_contains(name, q.pattern.as_str())
    } else {
        text_contains(folded_name, folded_pattern)
    }
}

/// The lowercase extension of a path, or the empty text where it has
/// none.
pub open spec fn extension_or_empty(path: Seq<char>) -> Seq<char> {
    match lower_extension(path) {
        Some(e) => e,
        None => Seq::empty(),
    }
}

/// Whether the query's extension filter lets a path through. An
/// empty filter lets everything through; the empty text in the
/// filter stands for paths without an extension.
pub open spec fn extension_allowed(q: SearchQuery, path: Seq<char>) -> bool {
    q.file_types@.len() == 0 || exists|i: int|
        0 <= i < q.file_types@.len() && (#[trigger] q.file_types@[i])@ == extension_or_empty(path)
}

/// Whether a file's size and modification time lie within the
/// query's bounds, which are inclusive. Entries that are not files
/// are not held to them.
pub open spec fn within_bounds(q: SearchQuery, stat: EntryStat) -> bool {
    !stat.is_file || {
        &&& q.size_min.is_some() ==> stat.size >= q.size_min.unwrap()
        &&& q.size_max.is_some() ==> stat.size <= q.size_max.unwrap()
        &&& q.modified_after.is_some() ==> !stat.modified.spec_is_before(
            q.modified_after.unwrap(),
        )
        &&& q.modified_before.is_some() ==> !q.modified_before.unwrap().spec_is_before(
            stat.modified,
        )
    }
}

/// Whether the query admits an entry: it could be examined, and it
/// meets the name pattern, the extension filter and the bounds.
pub open spec fn admits(q: SearchQuery, e: Candidate) -> bool {
    &&& e.stat.is_some()
    &&& name_hit(q, display_name(e.path@))
    &&& extension_allowed(q, e.path@)
    &&& within_bounds(q, e.stat.unwrap())
}

pub open spec fn admitted_by(q: SearchQuery) -> spec_fn(Candidate) -> bool {
    |e: Candidate| admits(q, e)
}

/// Whether the text of an entry is to be read for the query.
pub open spec fn content_wanted(q: SearchQuery, path: Seq<char>, is_file: bool) -> bool {
    &&& q.search_in_content
    &&& is_file
    &&& lower_extension(path).is_some()
    &&& is_text_extension(lower_extension(path).unwrap())
}

/// The part of `content` shown for a match that starts at `pos`:
/// the context before the start and as much behind it, cut off at
/// the ends of the text.
pub open spec fn excerpt_at(content: Seq<char>, pos: int) -> Seq<char> {
    let n = content.len() as int;
    let lo = if pos - CONTEXT_CHARS < 0 {
        0
    } else if pos - CONTEXT_CHARS > n {
        n
    } else {
        pos - CONTEXT_CHARS
    };
    let hi = if pos + CONTEXT_CHARS > n {
        n
    } else {
        pos + CONTEXT_CHARS
    };
    content.subrange(lo, hi)
}

/// Whether `shown` is the excerpt owed for `content`: none where the
/// pattern does not occur, else the surroundings of its first
/// occurrence. Without case sensitivity the occurrence is looked for
/// in the lowercase text, and its position cut out of the text as
/// it stands.
pub open spec fn is_excerpt(q: SearchQuery, content: Seq<char>, shown: Option<Seq<char>>) -> bool {
    let hay = if q.case_sensitive { content } else { lowercase(content) };
    let pat = if q.case_sensitive { q.pattern@ } else { lowercase(q.pattern@) };
    &&& shown.is_some() == contains_text(hay, pat)
    &&& shown.is_some() ==> forall|pos: int| #[trigger]
        first_occurrence(hay, pat, pos) ==> shown.unwrap() == excerpt_at(content, pos)
}

/// Whether `shown` is the excerpt owed for `content` where the
/// pattern is a regular expression: none where it matches nowhere,
/// else the surroundings of its first match.
pub open spec fn is_regex_excerpt(q: SearchQuery, content: Seq<char>, shown: Option<Seq<char>>) -> bool {
    match match_position(effective_pattern(q), content) {
        Some(pos) => shown == Some(excerpt_at(content, pos)),
        None => shown.is_none(),
    }
}

/// Whether `shown` is the context owed for an admitted entry.
pub open spec fn is_context(q: SearchQuery, e: Candidate, shown: Option<Seq<char>>) -> bool {
    if content_wanted(q, e.path@, e.stat.unwrap().is_file) && e.content.is_some() {
        if q.is_regex {
            is_regex_excerpt(q, e.content.unwrap()@, shown)
        } else {
            is_excerpt(q, e.content.unwrap()@, shown)
        }
    } else {
        shown.is_none()
    }
}

impl SearchResult {
    /// The excerpt of this result, as plain text.
    pub open spec fn context(&self) -> Option<Seq<char>> {
        text_of(self.match_context)
    }

    /// Whether this result reports the admitted entry `e`.
    pub open spec fn describes(&self, q: SearchQuery, e: Candidate) -> bool {
        &&& self.path@ == e.path@
        &&& self.file_name@ == display_name(e.path@)
        &&& self.size == e.stat.unwrap().size
        &&& self.modified == e.stat.unwrap().modified
        &&& is_context(q, e, self.context())
    }

    /// Whether two results say the same.
    pub open spec fn same_as(&self, other: &SearchResult) -> bool {
        &&& self.path@ == other.path@
        &&& self.file_name@ == other.file_name@
        &&& self.size == other.size
        &&& self.modified == other.modified
        &&& self.context() == other.context()
    }

    /// A copy of this result.
    pub fn duplicate(&self) -> (r: SearchResult)
        ensures
            r.same_as(self),
    {
        SearchResult {
            path: self.path.clone(),
            file_name: self.file_name.clone(),
            size: self.size,
            modified: self.modified,
            match_context: match &self.match_context {
                Some(c) => Some(c.clone()),
                None => None,
            },
        }
    }
}

/// Whether `results` reports exactly the entries that the query
/// admits, in the order in which they were met.
pub open spec fn reports(results: Seq<SearchResult>, q: SearchQuery, entries: Seq<Candidate>) -> bool {
    let hits = entries.filter(admitted_by(q));
    &&& results.len() == hits.len()
    &&& forall|k: int| 0 <= k < results.len() ==> (#[trigger] results[k]).describes(q, hits[k])
}

/// What a search over a walked tree comes to: a pattern that does
/// not compile fails it first, then a walk that could not start.
pub open spec fn search_outcome(q: SearchQuery, walk: Result<Vec<Candidate>, IoFault>) -> Result<
    (),
    SearchError,
> {
    if q.is_regex && !regex_accepts(effective_pattern(q)) {
        Err(SearchError::InvalidPattern)
    } else {
        match walk {
            Ok(_) => Ok(()),
            Err(IoFault::PermissionDenied) => Err(SearchError::PermissionDenied),
            Err(IoFault::Other) => Err(SearchError::IoError),
        }
    }
}

/// The text of an optional string.
pub open spec fn text_of(s: Option<String>) -> Option<Seq<char>> {
    match s {
        Some(t) => Some(t@),
        None => None,
    }
}

/// Cuts the excerpt for a match that starts at `pos` out of
/// `content`.
pub fn excerpt_around(content: &str, pos: usize) -> (shown: String)
    ensures
        shown@ == excerpt_at(content@, pos as int),
{
    let n: usize = content.unicode_len();
    let lo: usize = if pos < CONTEXT_CHARS {
        0
    } else if pos - CONTEXT_CHARS > n {
        n
    } else {
        pos - CONTEXT_CHARS
    };
    let hi: usize = if pos > n || n - pos < CONTEXT_CHARS {
        n
    } else {
        pos + CONTEXT_CHARS
    };
    let part = content.substring_char(lo, hi);
    part.to_owned()
}

/// The excerpt shown for the first match of a regular expression in
/// `content`, if it matches.
fn regex_excerpt(q: &SearchQuery, content: &str, re: &Pattern) -> (shown: Option<String>)
    requires
        re.source() == effective_pattern(*q),
    ensures
        is_regex_excerpt(*q, content@, text_of(shown)),
{
    match re.find_start(content) {
        Some(pos) => Some(excerpt_around(content, pos)),
        None => None,
    }
}

/// The excerpt shown for the first occurrence of the query's pattern
/// in `content`, if it occurs.
pub fn search_in_file_content(q: &SearchQuery, content: &str) -> (shown: Option<String>)
    ensures
        is_excerpt(*q, content@, text_of(shown)),
{
    let (hay, pat) = if q.case_sensitive {
        (chars_of(content), chars_of(q.pattern.as_str()))
    } else {
        let low = to_lower(content);
        let low_pat = to_lower(q.pattern.as_str());
        (chars_of(low.as_str()), chars_of(low_pat.as_str()))
    };
    let ghost spec_hay = if q.case_sensitive { content@ } else { lowercase(content@) };
    let ghost spec_pat = if q.case_sensitive { q.pattern@ } else { lowercase(q.pattern@) };
    assert(hay@ == spec_hay && pat@ == spec_pat);
    match find_first(&hay, &pat) {
        None => {
            assert(!contains_text(spec_hay, spec_pat));
            None
        },
        Some(pos) => {
            let shown = excerpt_around(content, pos);
            assert(contains_text(spec_hay, spec_pat));
            assert forall|other: int| #[trigger]
                first_occurrence(spec_hay, spec_pat, other) implies other == pos by {
                if other < pos {
                    assert(!occurs_at(spec_hay, spec_pat, other));
                } else if pos < other {
                    assert(!occurs_at(spec_hay, spec_pat, pos as int));
                }
            }
            let r = Some(shown);
            assert(text_of(r) == Some(shown@));
            assert(is_excerpt(*q, content@, text_of(r)));
            r
        },
    }
}

pub struct FileSearcher {
    query: SearchQuery,
    results: Vec<SearchResult>,
}

impl FileSearcher {
    /// The query that this searcher runs.
    pub closed spec fn query(&self) -> SearchQuery {
        self.query
    }

    /// What the last search found.
    pub closed spec fn found(&self) -> Seq<SearchResult> {
        self.results@
    }

    pub fn new(query: SearchQuery) -> (s: FileSearcher)
        ensures
            s.query() == query,
            s.found().len() == 0,
    {
        FileSearcher { query, results: Vec::new() }
    }

    pub fn get_results(&self) -> (r: &Vec<SearchResult>)
        ensures
            r@ == self.found(),
    {
        &self.results
    }

    /// Whether the text of the entry at `path` should be read before
    /// the entry is handed to `search`.
    pub fn wants_content(&self, path: &str, is_file: bool) -> (r: bool)
        ensures
            r == content_wanted(self.query(), path@, is_file),
    {
        if !self.query.search_in_content || !is_file {
            return false;
        }
        match extension(path) {
            Some(e) => {
                let low = to_lower(e.as_str());
                is_text_file(low.as_str())
            },
            None => false,
        }
    }

    /// Compiles the query's pattern where it is a regular
    /// expression, once for the whole search.
    fn prepare(&self) -> (r: Result<Option<Pattern>, SearchError>)
        ensures
            r.is_ok() == !(self.query().is_regex && !regex_accepts(effective_pattern(self.query()))),
            r.is_err() ==> r == Err::<Option<Pattern>, SearchError>(
                SearchError::InvalidPattern,
            ),
            r.is_ok() ==> r.unwrap().is_some() == self.query().is_regex,
            r.is_ok() && self.query().is_regex ==> r.unwrap().unwrap().source()
                == effective_pattern(self.query()),
    {
        if !self.query.is_regex {
            return Ok(None);
        }
        let compiled = if self.query.case_sensitive {
            Pattern::compile(self.query.pattern.as_str())
        } else {
            let flagged = String::from_str("(?i)").concat(self.query.pattern.as_str());
            Pattern::compile(flagged.as_str())
        };
        match compiled {
            Some(re) => Ok(Some(re)),
            None => Err(SearchError::InvalidPattern),
        }
    }

    /// Whether `name` satisfies the query's pattern.
    fn name_matches(&self, name: &str, regex: &Option<Pattern>) -> (r: bool)
        requires
            regex.is_some() == self.query().is_regex,
            regex.is_some() ==> regex.unwrap().source() == effective_pattern(self.query()),
        ensures
            r == name_hit(self.query(), name@),
    {
        match regex {
            Some(re) => name_test(&self.query, name, "", "", Some(re.is_match(name))),
            None => {
                if self.query.case_sensitive {
                    name_test(&self.query, name, "", "", None)
                } else {
                    let low = to_lower(name);
                    let low_pat = to_lower(self.query.pattern.as_str());
                    name_test(&self.query, name, low.as_str(), low_pat.as_str(), None)
                }
            },
        }
    }

    /// Whether the query's extension filter lets `path` through.
    pub fn extension_passes(&self, path: &str) -> (r: bool)
        ensures
            r == extension_allowed(self.query(), path@),
    {
        let n: usize = self.query.file_types.len();
        if n == 0 {
            return true;
        }
        let wanted = match extension(path) {
            Some(e) => to_lower(e.as_str()),
            None => String::new(),
        };
        let mut i: usize = 0;
        while i < n
            invariant
                n == self.query.file_types@.len(),
                i <= n,
                wanted@ == extension_or_empty(path@),
                forall|j: int| 0 <= j < i ==> (#[trigger] self.query.file_types@[j])@ != wanted@,
            decreases n - i,
        {
            if same_text(self.query.file_types[i].as_str(), wanted.as_str()) {
                return true;
            }
            i += 1;
        }
        false
    }

    /// Whether `stat` lies within the query's size and time bounds.
    pub fn bounds_pass(&self, stat: &EntryStat) -> (r: bool)
        ensures
            r == within_bounds(self.query(), *stat),
    {
        if !stat.is_file {
            return true;
        }
        if let Some(min) = self.query.size_min {
            if stat.size < min {
                return false;
            }
        }
        if let Some(max) = self.query.size_max {
            if stat.size > max {
                return false;
            }
        }
        if let Some(after) = self.query.modified_after {
            if stat.modified.is_before(&after) {
                return false;
            }
        }
        if let Some(before) = self.query.modified_before {
            if before.is_before(&stat.modified) {
                return false;
            }
        }
        true
    }

    /// Whether the query admits `entry`, given whether its name met
    /// the pattern. The name is tried first; the other tests come
    /// only behind it.
    pub fn admits_given_name(&self, entry: &Candidate, name_matched: bool) -> (r: bool)
        ensures
            r == (name_matched && entry.stat.is_some() && extension_allowed(
                self.query(),
                entry.path@,
            ) && within_bounds(self.query(), entry.stat.unwrap())),
    {
        if !name_matched {
            return false;
        }
        match &entry.stat {
            None => false,
            Some(stat) => self.extension_passes(entry.path.as_str()) && self.bounds_pass(stat),
        }
    }

    /// Whether the query admits `entry`.
    fn matches_criteria(&self, entry: &Candidate, regex: &Option<Pattern>) -> (r: bool)
        requires
            regex.is_some() == self.query().is_regex,
            regex.is_some() ==> regex.unwrap().source() == effective_pattern(self.query()),
        ensures
            r == admits(self.query(), *entry),
    {
        let name = match file_name(entry.path.as_str()) {
            Some(n) => n,
            None => String::new(),
        };
        let hit = self.name_matches(name.as_str(), regex);
        self.admits_given_name(entry, hit)
    }

    /// The result that reports an admitted entry.
    fn result_for(&self, entry: &Candidate, regex: &Option<Pattern>) -> (r: SearchResult)
        requires
            entry.stat.is_some(),
            regex.is_some() == self.query().is_regex,
            regex.is_some() ==> regex.unwrap().source() == effective_pattern(self.query()),
        ensures
            r.describes(self.query(), *entry),
    {
        let stat = entry.stat.unwrap();
        let name = match file_name(entry.path.as_str()) {
            Some(n) => n,
            None => String::new(),
        };
        let wanted = self.wants_content(entry.path.as_str(), stat.is_file);
        let shown = match &entry.content {
            Some(c) => {
                if wanted {
                    match regex {
                        Some(re) => regex_excerpt(&self.query, c.as_str(), re),
                        None => search_in_file_content(&self.query, c.as_str()),
                    }
                } else {
                    None
                }
            },
            None => None,
        };
        SearchResult {
            path: entry.path.clone(),
            file_name: name,
            size: stat.size,
            modified: stat.modified,
            match_context: shown,
        }
    }

    /// Runs the query over the entries met on a walk of the tree.
    /// `walk` is an error where the walk could not start.
    ///
    /// A pattern that does not compile fails the search, and so does
    /// a walk that could not start; what was found before is then
    /// forgotten. Otherwise every admitted entry is reported once, in
    /// the order of the walk, and the same reports are kept for
    /// `get_results`.
    pub fn search(&mut self, walk: Result<Vec<Candidate>, IoFault>) -> (r: Result<
        Vec<SearchResult>,
        SearchError,
    >)
        ensures
            final(self).query() == old(self).query(),
            r.is_ok() == search_outcome(old(self).query(), walk).is_ok(),
            r.is_err() ==> search_outcome(old(self).query(), walk) == Err::<(), SearchError>(
                r.unwrap_err(),
            ) && final(self).found().len() == 0,
            r.is_ok() ==> {
                &&& reports(r.unwrap()@, old(self).query(), walk.unwrap()@)
                &&& reports(final(self).found(), old(self).query(), walk.unwrap()@)
                &&& forall|k: int|
                    0 <= k < r.unwrap()@.len() ==> (#[trigger] r.unwrap()@[k]).same_as(
                        &final(self).found()[k],
                    )
            },
    {
        self.results = Vec::new();
        let regex = match self.prepare() {
            Ok(re) => re,
            Err(e) => {
                return Err(e);
            },
        };
        let entries = match walk {
            Ok(v) => v,
            Err(IoFault::PermissionDenied) => {
                return Err(SearchError::PermissionDenied);
            },
            Err(IoFault::Other) => {
                return Err(SearchError::IoError);
            },
        };
        let mut out: Vec<SearchResult> = Vec::new();
        let n: usize = entries.len();
        let ghost q = self.query;
        let mut i: usize = 0;
        assert(entries@.subrange(0, 0).filter(admitted_by(q)).len() == 0);
        while i < n
            invariant
                n == entries@.len(),
                i <= n,
                self.query == q,
                regex.is_some() == q.is_regex,
                regex.is_some() ==> regex.unwrap().source() == effective_pattern(q),
                reports(out@, q, entries@.subrange(0, i as int)),
                reports(self.results@, q, entries@.subrange(0, i as int)),
                forall|k: int| 0 <= k < out@.len() ==> (#[trigger] out@[k]).same_as(&self.results@[k]),
            decreases n - i,
        {
            let entry = &entries[i];
            let ghost upto = entries@.subrange(0, i + 1);
            proof {
                reveal_with_fuel(Seq::filter, 1);
                assert(upto.drop_last() =~= entries@.subrange(0, i as int));
                assert(upto.last() == *entry);
            }
            if self.matches_criteria(entry, &regex) {
                let found = self.result_for(entry, &regex);
                let kept = found.duplicate();
                out.push(found);
                self.results.push(kept);
            }
            i += 1;
        }
        assert(entries@.subrange(0, n as int) =~= entries@);
        Ok(out)
    }
}

} // verus!
