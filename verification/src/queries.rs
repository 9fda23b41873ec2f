//! The index's query texts: the filtered image listing, and which file
//! paths lie in a scanned directory.
use vstd::prelude::*;
use crate::indexer::is_separator;
use crate::text::{chars_of, starts_at, string_of};

verus! {

/// A scanned directory with the number of images indexed under it.
pub struct DirectoryEntry {
    pub id: i64,
    pub path: String,
    pub added_at: String,
    pub last_scanned_at: Option<String>,
    pub image_count: i64,
}

/// The columns and table of the image listing, before any `WHERE` clause.
pub const LIST_SELECT: &'static str =
    "SELECT id, file_name, file_path, format, image_type, object_name,
                filter_name, exposure_time, gain, date_obs, instrument, telescope,
                width, height, ccd_temp, software, fwhm, eccentricity, star_count,
                snr, quality_rejected, indexed_at, parse_error
         FROM images
         ";

/// The ordering of the image listing, after any `WHERE` clause.
pub const LIST_ORDER: &'static str = "
         ORDER BY date_obs DESC, file_name ASC";

/// The condition of a text search over object, file name and camera.
pub const SEARCH_CONDITION: &'static str = "(object_name LIKE ?  OR file_name LIKE ?  OR instrument LIKE ?)";

/// The condition on the image type, compared case-insensitively.
pub const TYPE_CONDITION: &'static str = "LOWER(image_type) = LOWER(?)";

/// The condition on the filter.
pub const FILTER_CONDITION: &'static str = "filter_name = ?";

/// The condition on the target object.
pub const OBJECT_CONDITION: &'static str = "object_name = ?";

/// A listing query: its SQL text and its parameters, in order.
pub struct ImageQuery {
    pub sql: String,
    pub params: Vec<String>,
}

/// Whether a filter is given and non-empty.
pub open spec fn active(f: Option<Seq<char>>) -> bool {
    match f {
        Some(v) => v.len() > 0,
        None => false,
    }
}

/// The text of an active filter.
pub open spec fn filter_text(f: Option<Seq<char>>) -> Seq<char> {
    match f {
        Some(v) => v,
        None => Seq::empty(),
    }
}

/// `%text%`: a `LIKE` pattern matching any text that contains `text`.
pub open spec fn contains_pattern(text: Seq<char>) -> Seq<char> {
    seq!['%'] + text + seq!['%']
}

/// The conditions of the active filters, in the order search, type, filter,
/// object.
pub open spec fn conditions(
    search: Option<Seq<char>>,
    image_type: Option<Seq<char>>,
    filter_name: Option<Seq<char>>,
    object_name: Option<Seq<char>>,
) -> Seq<Seq<char>> {
    (if active(search) {
        seq![SEARCH_CONDITION@]
    } else {
        Seq::empty()
    }) + (if active(image_type) {
        seq![TYPE_CONDITION@]
    } else {
        Seq::empty()
    }) + (if active(filter_name) {
        seq![FILTER_CONDITION@]
    } else {
        Seq::empty()
    }) + (if active(object_name) {
        seq![OBJECT_CONDITION@]
    } else {
        Seq::empty()
    })
}

/// The parameters of the active filters: the search pattern three times,
/// then the image type, the filter and the object.
pub open spec fn parameters(
    search: Option<Seq<char>>,
    image_type: Option<Seq<char>>,
    filter_name: Option<Seq<char>>,
    object_name: Option<Seq<char>>,
) -> Seq<Seq<char>> {
    let p = contains_pattern(filter_text(search));
    (if active(search) {
        seq![p, p, p]
    } else {
        Seq::empty()
    }) + (if active(image_type) {
        seq![filter_text(image_type)]
    } else {
        Seq::empty()
    }) + (if active(filter_name) {
        seq![filter_text(filter_name)]
    } else {
        Seq::empty()
    }) + (if active(object_name) {
        seq![filter_text(object_name)]
    } else {
        Seq::empty()
    })
}

/// The conditions joined by ` AND `.
pub open spec fn join_and(conds: Seq<Seq<char>>) -> Seq<char>
    decreases conds.len(),
{
    if conds.len() == 0 {
        Seq::empty()
    } else if conds.len() == 1 {
        conds[0]
    } else {
        join_and(conds.drop_last()) + " AND "@ + conds.last()
    }
}

/// The `WHERE` clause of the conditions, empty when there are none.
pub open spec fn where_clause(conds: Seq<Seq<char>>) -> Seq<char> {
    if conds.len() == 0 {
        Seq::empty()
    } else {
        "WHERE "@ + join_and(conds)
    }
}

/// The SQL text of a listing with the given filters.
pub open spec fn listing_sql(
    search: Option<Seq<char>>,
    image_type: Option<Seq<char>>,
    filter_name: Option<Seq<char>>,
    object_name: Option<Seq<char>>,
) -> Seq<char> {
    LIST_SELECT@ + where_clause(conditions(search, image_type, filter_name, object_name))
        + LIST_ORDER@
}

/// The characters of an optional string.
pub open spec fn opt_text(o: Option<String>) -> Option<Seq<char>> {
    match o {
        Some(s) => Some(s@),
        None => None,
    }
}

/// The texts of a list of strings.
pub open spec fn texts_of(v: Seq<String>) -> Seq<Seq<char>> {
    v.map_values(|s: String| s@)
}

/// Whether an optional filter is given and non-empty.
fn is_active(f: &Option<String>) -> (b: bool)
    ensures
        b == active(opt_text(*f)),
{
    match f {
        Some(v) => !v.as_str().is_empty(),
        None => false,
    }
}

/// Builds the image listing query for a text search, an image type, a
/// filter and a target object; each applies only when given and non-empty.
/// The search matches object, file name or camera containing the text; the
/// type is compared case-insensitively, the filter and the object exactly;
/// the newest images come first.
pub fn image_query(
    search: &Option<String>,
    image_type: &Option<String>,
    filter_name: &Option<String>,
    object_name: &Option<String>,
) -> (q: ImageQuery)
    ensures
        q.sql@ == listing_sql(
            opt_text(*search),
            opt_text(*image_type),
            opt_text(*filter_name),
            opt_text(*object_name),
        ),
        texts_of(q.params@) == parameters(
            opt_text(*search),
            opt_text(*image_type),
            opt_text(*filter_name),
            opt_text(*object_name),
        ),
{
    let ghost s = opt_text(*search);
    let ghost t = opt_text(*image_type);
    let ghost f = opt_text(*filter_name);
    let ghost o = opt_text(*object_name);
    let mut conds: Vec<&str> = Vec::new();
    let mut params: Vec<String> = Vec::new();
    if is_active(search) {
        let text = match search {
            Some(v) => v.as_str(),
            None => "",
        };
        let pattern = String::from_str("%").concat(text).concat("%");
        proof {
            reveal_strlit("%");
        }
        assert(pattern@ =~= contains_pattern(filter_text(s)));
        conds.push(SEARCH_CONDITION);
        params.push(pattern.clone());
        params.push(pattern.clone());
        params.push(pattern);
    }
    let ghost c1 = if active(s) {
        seq![SEARCH_CONDITION@]
    } else {
        Seq::<Seq<char>>::empty()
    };
    let ghost p1 = if active(s) {
        let p = contains_pattern(filter_text(s));
        seq![p, p, p]
    } else {
        Seq::<Seq<char>>::empty()
    };
    assert(conds@.map_values(|c: &str| c@) =~= c1);
    assert(texts_of(params@) =~= p1);
    if is_active(image_type) {
        let text = match image_type {
            Some(v) => v.clone(),
            None => String::new(),
        };
        conds.push(TYPE_CONDITION);
        params.push(text);
    }
    let ghost c2 = c1 + if active(t) {
        seq![TYPE_CONDITION@]
    } else {
        Seq::<Seq<char>>::empty()
    };
    let ghost p2 = p1 + if active(t) {
        seq![filter_text(t)]
    } else {
        Seq::<Seq<char>>::empty()
    };
    assert(conds@.map_values(|c: &str| c@) =~= c2);
    assert(texts_of(params@) =~= p2);
    if is_active(filter_name) {
        let text = match filter_name {
            Some(v) => v.clone(),
            None => String::new(),
        };
        conds.push(FILTER_CONDITION);
        params.push(text);
    }
    let ghost c3 = c2 + if active(f) {
        seq![FILTER_CONDITION@]
    } else {
        Seq::<Seq<char>>::empty()
    };
    let ghost p3 = p2 + if active(f) {
        seq![filter_text(f)]
    } else {
        Seq::<Seq<char>>::empty()
    };
    assert(conds@.map_values(|c: &str| c@) =~= c3);
    assert(texts_of(params@) =~= p3);
    if is_active(object_name) {
        let text = match object_name {
            Some(v) => v.clone(),
            None => String::new(),
        };
        conds.push(OBJECT_CONDITION);
        params.push(text);
    }
    let ghost c4 = c3 + if active(o) {
        seq![OBJECT_CONDITION@]
    } else {
        Seq::<Seq<char>>::empty()
    };
    assert(conds@.map_values(|c: &str| c@) =~= c4);
    assert(c4 == conditions(s, t, f, o));
    assert(texts_of(params@) =~= parameters(s, t, f, o));
    let clause = where_of(&conds);
    let sql = String::from_str(LIST_SELECT).concat(clause.as_str()).concat(LIST_ORDER);
    ImageQuery { sql, params }
}

/// The `WHERE` clause of a list of conditions.
fn where_of(conds: &Vec<&str>) -> (w: String)
    ensures
        w@ == where_clause(conds@.map_values(|c: &str| c@)),
{
    let ghost cv = conds@.map_values(|c: &str| c@);
    if conds.len() == 0 {
        return String::new();
    }
    let mut joined = String::from_str(conds[0]);
    let mut i: usize = 1;
    assert(cv.take(1) =~= seq![cv[0]]);
    while i < conds.len()
        invariant
            1 <= i <= conds@.len(),
            cv == conds@.map_values(|c: &str| c@),
            joined@ == join_and(cv.take(i as int)),
        decreases conds.len() - i,
    {
        let ghost before = joined@;
        joined = joined.concat(" AND ").concat(conds[i]);
        assert(cv.take(i + 1).drop_last() =~= cv.take(i as int));
        assert(cv.take(i + 1).last() == conds@[i as int]@);
        i = i + 1;
    }
    assert(cv.take(conds@.len() as int) =~= cv);
    String::from_str("WHERE ").concat(joined.as_str())
}

// ---------------------------------------------------------------------------
// Directories
// ---------------------------------------------------------------------------

/// Whether `file` lies in directory `dir` (at any depth): it starts with
/// `dir`, and either `dir` ends in a separator or a separator follows it.
/// `M42b/x.fits` does not lie in `M42`.
pub open spec fn lies_in(dir: Seq<char>, file: Seq<char>) -> bool {
    &&& dir.len() < file.len()
    &&& file.take(dir.len() as int) == dir
    &&& ((dir.len() > 0 && is_separator(dir.last())) || is_separator(file[dir.len() as int]))
}

/// Whether the file path `file` lies in the directory `dir`.
pub fn in_directory(dir: &str, file: &str) -> (b: bool)
    ensures
        b == lies_in(dir@, file@),
{
    let d = chars_of(dir);
    let f = chars_of(file);
    if d.len() >= f.len() {
        return false;
    }
    if !starts_at(&f, 0, &d) {
        assert(f@.subrange(0, d@.len() as int) == f@.take(d@.len() as int));
        return false;
    }
    assert(f@.subrange(0, d@.len() as int) == f@.take(d@.len() as int));
    let n = d.len();
    (n > 0 && (d[n - 1] == '/' || d[n - 1] == '\\')) || f[n] == '/' || f[n] == '\\'
}

/// How many of `files` lie in `dir`.
pub open spec fn count_in(dir: Seq<char>, files: Seq<Seq<char>>) -> nat
    decreases files.len(),
{
    if files.len() == 0 {
        0
    } else {
        count_in(dir, files.drop_last()) + if lies_in(dir, files.last()) {
            1nat
        } else {
            0nat
        }
    }
}

/// The number of file paths among `files` that lie in `dir`.
pub fn count_in_directory(dir: &str, files: &[String]) -> (n: usize)
    ensures
        n == count_in(dir@, texts_of(files@)),
{
    let mut n: usize = 0;
    let mut i: usize = 0;
    while i < files.len()
        invariant
            i <= files@.len(),
            n == count_in(dir@, texts_of(files@.take(i as int))),
            n <= i,
        decreases files.len() - i,
    {
        let ghost before = texts_of(files@.take(i as int));
        assert(texts_of(files@.take(i + 1)).drop_last() =~= before);
        assert(texts_of(files@.take(i + 1)).last() == files@[i as int]@);
        if in_directory(dir, files[i].as_str()) {
            n = n + 1;
        }
        i = i + 1;
    }
    assert(files@.take(files@.len() as int) =~= files@);
    n
}

/// `s` with `%`, `_` and `!` each escaped by `!`, so that `LIKE ... ESCAPE
/// '!'` reads every character of `s` literally.
pub open spec fn like_escaped(s: Seq<char>) -> Seq<char>
    decreases s.len(),
{
    if s.len() == 0 {
        Seq::empty()
    } else {
        like_escaped(s.drop_last()) + if s.last() == '%' || s.last() == '_' || s.last() == '!' {
            seq!['!', s.last()]
        } else {
            seq![s.last()]
        }
    }
}

/// The `LIKE ... ESCAPE '!'` pattern of the file paths that start with
/// `path`: the path with `%`, `_` and `!` escaped, then `%`. It narrows the
/// search; which of the paths it selects lie in the directory is
/// `in_directory`'s answer (a sibling such as `M42b` starts with `M42` too,
/// and SQLite's `LIKE` ignores ASCII case).
pub fn directory_pattern(path: &str) -> (p: String)
    ensures
        p@ == like_escaped(path@) + "%"@,
{
    let c = chars_of(path);
    let mut out: Vec<char> = Vec::new();
    let mut i: usize = 0;
    while i < c.len()
        invariant
            i <= c@.len(),
            out@ == like_escaped(c@.take(i as int)),
        decreases c.len() - i,
    {
        let ch = c[i];
        assert(c@.take(i + 1).drop_last() =~= c@.take(i as int));
        if ch == '%' || ch == '_' || ch == '!' {
            out.push('!');
        }
        out.push(ch);
        assert(out@ =~= like_escaped(c@.take(i + 1)));
        i = i + 1;
    }
    out.push('%');
    assert(c@.take(c@.len() as int) =~= c@);
    proof {
        reveal_strlit("%");
    }
    assert(out@ =~= like_escaped(path@) + "%"@);
    string_of(&out)
}

/// The schema version that the index's migrations bring a database to.
pub const SCHEMA_VERSION: i64 = 1;

/// Whether a database at schema `version` (0 for a new one) still needs the
/// first migration, which creates the tables and indexes.
pub fn migration_needed(version: i64) -> (b: bool)
    ensures
        b == (version < SCHEMA_VERSION),
{
    version < SCHEMA_VERSION
}

} // verus!
