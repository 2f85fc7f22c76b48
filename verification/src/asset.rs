//! The crawl's data model: a `File` built from its URL, a frontier
//! `Directory`, a `Page` of files, and the `Stat` tallies the recorder
//! keeps.

use vstd::prelude::*;
use crate::text::{chars_of, string_of, seq_contains, seq_starts_with, seq_ends_with, contains_at,
    subvec, push_all, push_lit, contains_lit, starts_with_lit, ends_with_lit, find_first,
    is_word_char};
use crate::parser::{spec_splice, splice, spec_split_url, split_url, spec_remove_last_slash,
    remove_last_slash_chars, copy_chars, eq_chars, word_run_end, word_run_end_exec, last_index_of,
    last_index_of_exec, find_char2, find_char2_exec, ext_ok_at, ext_ok_at_pub, first_occurrence,
    lemma_first_occurrence};

verus! {

// ---------------------------------------------------------------------------
// Percent decoding, through the urlencoding crate
// ---------------------------------------------------------------------------

/// What `urlencoding::decode` yields on a decodable string: its percent
/// escapes read as UTF-8.
pub uninterp spec fn percent_decoded(s: Seq<char>) -> Seq<char>;

/// Whether `urlencoding::decode` succeeds on the string: whether its
/// percent escapes decode to valid UTF-8. A function of the string alone.
pub uninterp spec fn percent_decodable(s: Seq<char>) -> bool;

/// The decoded reading of a string, when it has one; the string itself
/// otherwise.
pub open spec fn spec_decoded_or_raw(s: Seq<char>) -> Seq<char> {
    if percent_decodable(s) {
        percent_decoded(s)
    } else {
        s
    }
}

/// Relies on `urlencoding::decode`: percent escapes decoded to bytes and
/// read back as UTF-8; it succeeds exactly when those bytes are valid
/// UTF-8, and a string without `%` comes back unchanged.
#[verifier::external_body]
fn percent_decode(x: &str) -> (r: Option<String>)
    ensures
        r is Some <==> percent_decodable(x@),
        r is Some ==> r->0@ == percent_decoded(x@),
        !seq_contains(x@, "%"@) ==> r is Some && r->0@ == x@,
{
    match urlencoding::decode(x) {
        Ok(cow) => Some(cow.into_owned()),
        Err(_) => None,
    }
}

/// Decode URL entities, keeping the text as it stands when its escapes
/// are no valid UTF-8.
pub fn decode_entities(x: &str) -> (r: String)
    ensures
        r@ == spec_decoded_or_raw(x@),
        !seq_contains(x@, "%"@) ==> r@ == x@,
{
    match percent_decode(x) {
        Some(d) => d,
        None => {
            let v = chars_of(x);
            string_of(&v)
        },
    }
}

// ---------------------------------------------------------------------------
// File names out of URLs
// ---------------------------------------------------------------------------

/// Length of an inline query component `/?<word>=<word>/` at `i`.
pub open spec fn query_component_len_at(s: Seq<char>, i: int) -> Option<int> {
    if 0 <= i && i + 1 < s.len() && s[i] == '/' && s[i + 1] == '?' && word_run_end(s, i + 2) > i
        + 2 {
        let w1 = word_run_end(s, i + 2);
        if w1 < s.len() && s[w1] == '=' && word_run_end(s, w1 + 1) > w1 + 1 {
            let w2 = word_run_end(s, w1 + 1);
            if w2 < s.len() && s[w2] == '/' {
                Some(w2 + 1 - i)
            } else {
                None
            }
        } else {
            None
        }
    } else {
        None
    }
}

#[verifier::loop_isolation(false)]
fn query_component_len_at_exec(v: &Vec<char>, i: usize) -> (r: Option<usize>)
    requires
        i <= v@.len(),
    ensures
        match r {
            Some(l) => query_component_len_at(v@, i as int) == Some(l as int) && i + l
                <= v@.len(),
            None => query_component_len_at(v@, i as int) is None,
        },
{
    let n = v.len();
    if i >= n || !(i + 1 < n && v[i] == '/' && v[i + 1] == '?') {
        return None;
    }
    let w1 = word_run_end_exec(v, i + 2);
    if !(w1 > i + 2 && w1 < n && v[w1] == '=') {
        return None;
    }
    let w2 = word_run_end_exec(v, w1 + 1);
    if !(w2 > w1 + 1 && w2 < n && v[w2] == '/') {
        return None;
    }
    Some(w2 + 1 - i)
}

/// The URL with its first inline query component collapsed to `/`; the
/// URL itself when none occurs.
pub open spec fn spec_remove_query_component(s: Seq<char>) -> Seq<char> {
    if exists|i: int| 0 <= i <= s.len() && query_component_len_at(s, i) is Some {
        let i = choose|i: int|
            0 <= i <= s.len() && query_component_len_at(s, i) is Some && forall|j: int|
                0 <= j < i ==> query_component_len_at(s, j) is None;
        spec_splice(s, i, i + query_component_len_at(s, i)->0, "/"@)
    } else {
        s
    }
}

/// Whether the URL holds an inline query component at all.
pub open spec fn spec_has_query_component(s: Seq<char>) -> bool {
    exists|i: int| 0 <= i <= s.len() && query_component_len_at(s, i) is Some
}

#[verifier::loop_isolation(false)]
fn remove_query_component(v: &Vec<char>) -> (r: Option<Vec<char>>)
    ensures
        match r {
            Some(out) => spec_has_query_component(v@) && out@ == spec_remove_query_component(v@),
            None => !spec_has_query_component(v@),
        },
{
    proof {
        reveal_strlit("/");
    }
    let n = v.len();
    let slash = chars_of("/");
    let mut i: usize = 0;
    while i < n
        invariant
            0 <= i <= n,
            forall|j: int| 0 <= j < i ==> query_component_len_at(v@, j) is None,
        decreases n - i,
    {
        match query_component_len_at_exec(v, i) {
            Some(l) => {
                let out = splice(v, i, i + l, &slash);
                proof {
                    let wi = i as int;
                    let ci = choose|ci: int|
                        0 <= ci <= v@.len() && query_component_len_at(v@, ci) is Some && forall|
                            j: int,
                        | 0 <= j < ci ==> query_component_len_at(v@, j) is None;
                    assert(0 <= wi <= v@.len() && query_component_len_at(v@, wi) is Some
                        && forall|j: int|
                        0 <= j < wi ==> query_component_len_at(v@, j) is None);
                    assert(ci == wi) by {
                        if ci < wi {
                            assert(query_component_len_at(v@, ci) is None);
                        }
                        if wi < ci {
                            assert(query_component_len_at(v@, wi) is None);
                        }
                    }
                }
                return Some(out);
            },
            None => {
                i = i + 1;
            },
        }
    }
    proof {
        assert(query_component_len_at(v@, n as int) is None);
        assert(forall|j: int| 0 <= j <= v@.len() ==> query_component_len_at(v@, j) is None);
    }
    None
}

/// The last path segment: what follows the final slash.
pub open spec fn spec_last_segment(path: Seq<char>) -> Seq<char> {
    if last_index_of(path, '/') >= 0 {
        path.skip(last_index_of(path, '/') + 1)
    } else {
        path
    }
}

fn last_segment(path: &Vec<char>) -> (r: Vec<char>)
    ensures
        r@ == spec_last_segment(path@),
{
    let n = path.len();
    match last_index_of_exec(path, '/') {
        Some(i) => {
            let r = subvec(path, i + 1, path.len());
            assert(r@ =~= path@.skip(last_index_of(path@, '/') + 1));
            r
        },
        None => copy_chars(path),
    }
}

/// The decoded final path segment a URL names its file by: an inline
/// query component is collapsed first; a URL whose path is bare `/` may
/// name the file in a slash-led query instead; the segment must be
/// non-empty.
pub open spec fn spec_retrieve_name(url: Seq<char>) -> Option<Seq<char>> {
    if spec_has_query_component(url) {
        match spec_split_url(spec_remove_query_component(url)) {
            Some(p) => Some(spec_last_segment(p.path)),
            None => None,
        }
    } else {
        match spec_split_url(url) {
            None => None,
            Some(p) => {
                let path = if p.path == "/"@ && (match p.query {
                    Some(q) => seq_starts_with(q, "/"@),
                    None => false,
                }) {
                    p.query->0
                } else if p.path == "/"@ && p.query is Some {
                    Seq::<char>::empty()
                } else {
                    p.path
                };
                let name = spec_last_segment(spec_remove_last_slash(path));
                if name.len() > 0 {
                    Some(name)
                } else {
                    None
                }
            },
        }
    }
}

#[verifier::rlimit(60)]
fn retrieve_name(url: &Vec<char>) -> (r: Option<Vec<char>>)
    ensures
        match r {
            Some(name) => spec_retrieve_name(url@) == Some(name@),
            None => spec_retrieve_name(url@) is None,
        },
{
    proof {
        reveal_strlit("/");
    }
    match remove_query_component(url) {
        Some(cleaned) => {
            match split_url(&cleaned) {
                Some(p) => Some(last_segment(&p.path)),
                None => None,
            }
        },
        None => {
            let p = match split_url(url) {
                Some(p) => p,
                None => {
                    return None;
                },
            };
            let slash = chars_of("/");
            let path_is_root = eq_chars(&p.path, &slash);
            let path: Vec<char> = if path_is_root {
                match &p.query {
                    Some(q) => {
                        if starts_with_lit(q, "/") {
                            copy_chars(q)
                        } else {
                            Vec::new()
                        }
                    },
                    None => copy_chars(&p.path),
                }
            } else {
                copy_chars(&p.path)
            };
            let name = last_segment(&remove_last_slash_chars(&path));
            if name.len() > 0 {
                Some(name)
            } else {
                None
            }
        },
    }
}

/// Whether some path component with a file extension ends the URL: a
/// slash stands somewhere before the extension's dot.
pub open spec fn spec_has_file_ext_path(s: Seq<char>) -> bool {
    let t = spec_remove_last_slash(s);
    exists|k: int|
        2 <= k <= 7 && #[trigger] ext_ok_at(t, k) && exists|j: int|
            0 <= j && j + 2 <= t.len() - 1 - k && t[j] == '/'
}

/// Checks whether the URL's tail names a file with an extension.
pub fn has_file_ext_path(x: &str) -> (r: bool)
    ensures
        r == spec_has_file_ext_path(x@),
{
    let v = chars_of(x);
    has_file_ext_path_chars(&v)
}

#[verifier::loop_isolation(false)]
pub fn has_file_ext_path_chars(v: &Vec<char>) -> (r: bool)
    ensures
        r == spec_has_file_ext_path(v@),
{
    let t = remove_last_slash_chars(v);
    let n = t.len();
    let mut k: usize = 2;
    while k <= 7
        invariant
            2 <= k <= 8,
            forall|kk: int|
                2 <= kk < k ==> !(ext_ok_at(t@, kk) && exists|j: int|
                    0 <= j && j + 2 <= t@.len() - 1 - kk && t@[j] == '/'),
        decreases 8 - k,
    {
        if ext_ok_at_pub(&t, k) {
            let e = find_char2_exec(&t, 0, '/', '/');
            if n > k && n - 1 - k >= 2 && e <= n - 1 - k - 2 {
                proof {
                    lemma_find_char2_hit(t@, 0, '/');
                }
                assert(t@[e as int] == '/');
                return true;
            }
            proof {
                lemma_find_char2_least(t@, 0, '/');
                assert forall|j: int|
                    0 <= j && j + 2 <= t@.len() - 1 - k && t@[j] == '/' implies false by {
                    assert(find_char2(t@, 0, '/', '/') <= j);
                }
            }
        }
        k = k + 1;
    }
    false
}

/// When `find_char2` stops short of the end, it stops on the character.
pub proof fn lemma_find_char2_hit(s: Seq<char>, j: int, c: char)
    requires
        0 <= j <= s.len(),
        find_char2(s, j, c, c) < s.len(),
    ensures
        s[find_char2(s, j, c, c)] == c,
    decreases s.len() - j,
{
    if j < s.len() && s[j] != c {
        lemma_find_char2_hit(s, j + 1, c);
    }
}

/// No earlier position holds the character.
pub proof fn lemma_find_char2_least(s: Seq<char>, j: int, c: char)
    requires
        0 <= j <= s.len(),
    ensures
        forall|m: int| j <= m < s.len() && s[m] == c ==> find_char2(s, j, c, c) <= m,
    decreases s.len() - j,
{
    if j < s.len() && s[j] != c {
        lemma_find_char2_least(s, j + 1, c);
    }
}

/// The parent directory portion of a file URL's path: everything up to
/// and including the final slash when the path names a file, the whole
/// path otherwise.
pub open spec fn spec_dir_path(link: Seq<char>) -> Seq<char> {
    let cleaned = if spec_has_query_component(link) {
        spec_remove_query_component(link)
    } else {
        link
    };
    match spec_split_url(cleaned) {
        Some(p) => if spec_has_file_ext_path(p.path) && last_index_of(
            spec_remove_last_slash(p.path),
            '/',
        ) >= 0 {
            p.path.take(last_index_of(spec_remove_last_slash(p.path), '/') + 1)
        } else {
            p.path
        },
        None => Seq::<char>::empty(),
    }
}

#[verifier::rlimit(60)]
fn dir_path(link: &Vec<char>) -> (r: Vec<char>)
    ensures
        r@ == spec_dir_path(link@),
{
    let cleaned = match remove_query_component(link) {
        Some(c) => c,
        None => copy_chars(link),
    };
    let p = match split_url(&cleaned) {
        Some(p) => p,
        None => {
            return Vec::new();
        },
    };
    if has_file_ext_path_chars(&p.path) {
        let stripped = remove_last_slash_chars(&p.path);
        match last_index_of_exec(&stripped, '/') {
            Some(i) => {
                let r = subvec(&p.path, 0, i + 1);
                assert(r@ =~= p.path@.take(last_index_of(stripped@, '/') + 1));
                r
            },
            None => copy_chars(&p.path),
        }
    } else {
        copy_chars(&p.path)
    }
}

/// The extension (after the last dot) or the short name (between the
/// last two dots, or before the only dot).
pub open spec fn spec_part_of_name(name: Seq<char>, get_ext: bool) -> Option<Seq<char>> {
    let ld = last_index_of(name, '.');
    if ld < 0 {
        None
    } else if get_ext {
        Some(name.skip(ld + 1))
    } else {
        let pd = last_index_of(name.take(ld), '.');
        if pd >= 0 {
            Some(name.subrange(pd + 1, ld))
        } else {
            Some(name.take(ld))
        }
    }
}

/// Get the file extension or the name before it.
pub fn part_of_name(name: &str, get_ext: bool) -> (r: Option<String>)
    ensures
        match r {
            Some(s) => spec_part_of_name(name@, get_ext) == Some(s@),
            None => spec_part_of_name(name@, get_ext) is None,
        },
{
    let v = chars_of(name);
    let n = v.len();
    let ld = match last_index_of_exec(&v, '.') {
        Some(i) => i,
        None => {
            return None;
        },
    };
    if get_ext {
        let r = subvec(&v, ld + 1, v.len());
        assert(r@ =~= v@.skip(last_index_of(v@, '.') + 1));
        Some(string_of(&r))
    } else {
        let head = subvec(&v, 0, ld);
        assert(head@ =~= v@.take(last_index_of(v@, '.')));
        match last_index_of_exec(&head, '.') {
            Some(pd) => {
                let r = subvec(&v, pd + 1, ld);
                assert(r@ =~= v@.subrange(last_index_of(head@, '.') + 1, ld as int));
                Some(string_of(&r))
            },
            None => Some(string_of(&head)),
        }
    }
}

/// Shortens a file name to its last 160 characters.
pub fn cut_name(name: &str) -> (r: String)
    ensures
        name@.len() > 160 ==> r@ == name@.skip(name@.len() - 160),
        name@.len() <= 160 ==> r@ == name@,
{
    let v = chars_of(name);
    if v.len() > 160 {
        let r = subvec(&v, v.len() - 160, v.len());
        assert(r@ =~= v@.skip(v@.len() - 160));
        string_of(&r)
    } else {
        string_of(&v)
    }
}

impl File {
    /// Shortens a file name to its last 160 characters.
    pub fn cut_name(name: &str) -> (r: String)
        ensures
            name@.len() > 160 ==> r@ == name@.skip(name@.len() - 160),
            name@.len() <= 160 ==> r@ == name@,
    {
        cut_name(name)
    }
}

} // verus!

verus! {

/// The option holds exactly the named sequence.
pub open spec fn opt_str_matches(o: Option<String>, s: Option<Seq<char>>) -> bool {
    match o {
        Some(v) => s == Some(v@),
        None => s is None,
    }
}

/// The fields a file built from `link` shows: the decoded final path
/// segment as its name, the extension and short name off the name's
/// dots, and the decoded parent directory path.
pub open spec fn file_built_from(f: File, link: Seq<char>) -> bool {
    &&& f.link@ == link
    &&& f.name@ == (match spec_retrieve_name(link) {
        Some(raw) => spec_decoded_or_raw(raw),
        None => "untitled"@,
    })
    &&& opt_str_matches(f.ext, spec_part_of_name(f.name@, true))
    &&& opt_str_matches(f.short_name, spec_part_of_name(f.name@, false))
    &&& f.dir_path@ == spec_decoded_or_raw(spec_dir_path(link))
}

/// One downloadable file, built from its absolute URL.
#[derive(Debug)]
pub struct File {
    pub link: String,
    pub name: String,
    pub short_name: Option<String>,
    pub ext: Option<String>,
    pub dir_path: String,
}

impl PartialEq for File {
    /// Files are the same file exactly when their links agree.
    fn eq(&self, other: &Self) -> (r: bool) {
        let a = chars_of(self.link.as_str());
        let b = chars_of(other.link.as_str());
        eq_chars(&a, &b)
    }
}

impl vstd::std_specs::cmp::PartialEqSpecImpl for File {
    open spec fn obeys_eq_spec() -> bool {
        true
    }

    open spec fn eq_spec(&self, other: &Self) -> bool {
        self.link@ == other.link@
    }
}

impl File {
    /// Builds a file from its URL: the decoded final path segment names
    /// it, the extension and short name come off its dots, and the
    /// parent directory path is kept alongside.
    pub fn new(link: &str) -> (r: File)
        ensures
            file_built_from(r, link@),
    {
        let lv = chars_of(link);
        let name: String = match retrieve_name(&lv) {
            Some(raw) => {
                let raw_s = string_of(&raw);
                decode_entities(raw_s.as_str())
            },
            None => {
                proof {
                    reveal_strlit("untitled");
                    reveal_strlit("%");
                }
                let u = String::from_str("untitled");
                assert(!seq_contains(u@, "%"@)) by {
                    assert(forall|i: int| 0 <= i < u@.len() ==> u@[i] != '%');
                    assert forall|i: int| !contains_at(u@, "%"@, i) by {
                        if contains_at(u@, "%"@, i) {
                            assert(u@.subrange(i, i + 1)[0] == u@[i]);
                        }
                    }
                }
                decode_entities(u.as_str())
            },
        };
        let ext = part_of_name(name.as_str(), true);
        let short_name = part_of_name(name.as_str(), false);
        let dp = dir_path(&lv);
        let dp_s = string_of(&dp);
        let dir_path = decode_entities(dp_s.as_str());
        File { link: String::from_str(link), name, ext, short_name, dir_path }
    }

    /// Get the file extension or the short name of this file's name.
    pub fn get_part_of_name(name: &str, get_ext: bool) -> (r: Option<String>)
        ensures
            opt_str_matches(r, spec_part_of_name(name@, get_ext)),
    {
        part_of_name(name, get_ext)
    }

    /// The name this file's record is kept under.
    pub fn to_json(self) -> (r: String)
        ensures
            (match self.short_name {
                Some(s) => r@ == s@ + ".json"@,
                None => r@ == self.name@ + ".json"@,
            }),
    {
        let mut v = match &self.short_name {
            Some(s) => chars_of(s.as_str()),
            None => chars_of(self.name.as_str()),
        };
        push_lit(&mut v, ".json");
        string_of(&v)
    }
}

/// One frontier entry: a directory link and its depth from the root.
pub struct Directory {
    pub link: String,
    pub level: usize,
}

impl Directory {
    pub fn new(link: String, level: usize) -> (r: Directory)
        ensures
            r.link == link,
            r.level == level,
    {
        Directory { link, level }
    }
}

/// The files discovered on one visited resource, in document order.
pub struct Page {
    pub files: Vec<File>,
}

impl Page {
    pub fn new(files: Vec<File>) -> (r: Page)
        ensures
            r.files == files,
    {
        Page { files }
    }
}

// ---------------------------------------------------------------------------
// Stat tallies
// ---------------------------------------------------------------------------

/// Lexicographic order on character sequences, by code point.
pub open spec fn chars_le(a: Seq<char>, b: Seq<char>) -> bool
    decreases a.len(),
{
    if a.len() == 0 {
        true
    } else if b.len() == 0 {
        false
    } else if a[0] == b[0] {
        chars_le(a.skip(1), b.skip(1))
    } else {
        a[0] < b[0]
    }
}

/// Relies on `Vec::sort_unstable` for `String`: sorts ascending by
/// `Ord`, which orders strings lexicographically by byte value — the
/// code-point order of their characters, since UTF-8 preserves it.
#[verifier::external_body]
fn sort_strings(v: &mut Vec<String>)
    ensures
        final(v)@.map_values(|s: String| s@).to_multiset() == old(v)@.map_values(
            |s: String| s@,
        ).to_multiset(),
        forall|i: int, j: int|
            0 <= i < j < final(v)@.len() ==> chars_le(final(v)@[i]@, final(v)@[j]@),
{
    v.sort_unstable()
}

/// Download statistics: how many files, how many of each extension, and
/// the file names seen.
pub struct Stat {
    pub total_files: usize,
    pub extension_names: Vec<String>,
    pub extension_counts: Vec<usize>,
    pub file_names: Vec<String>,
}

/// The index of the first extension entry named `ext`, or the list
/// length when none is.
pub open spec fn ext_index(names: Seq<Seq<char>>, ext: Seq<char>) -> int
    decreases names.len(),
{
    if names.len() == 0 {
        0
    } else if names[0] == ext {
        0
    } else {
        1 + ext_index(names.skip(1), ext)
    }
}

impl Stat {
    /// The tallies are well-formed: one count per extension name.
    pub open spec fn wf(&self) -> bool {
        self.extension_names@.len() == self.extension_counts@.len()
    }

    pub fn new() -> (r: Stat)
        ensures
            r.wf(),
            r.total_files == 0,
            r.extension_names@.len() == 0,
            r.extension_counts@.len() == 0,
            r.file_names@.len() == 0,
    {
        Stat {
            total_files: 0,
            extension_names: Vec::new(),
            extension_counts: Vec::new(),
            file_names: Vec::new(),
        }
    }

    /// Record one more file of the given extension: its count grows by
    /// one (stopping at the machine limit), a fresh extension starts at
    /// one, and the file total grows alongside.
    #[verifier::loop_isolation(false)]
    pub fn add_extension(&mut self, ext: String)
        requires
            old(self).wf(),
        ensures
            final(self).wf(),
            final(self).file_names == old(self).file_names,
            final(self).total_files == (if old(self).total_files < usize::MAX {
                old(self).total_files + 1
            } else {
                old(self).total_files as int
            }),
            ({
                let names = old(self).extension_names@.map_values(|s: String| s@);
                let i = ext_index(names, ext@);
                if i < names.len() {
                    final(self).extension_names == old(self).extension_names
                        && final(self).extension_counts@ == old(self).extension_counts@.update(
                        i,
                        (if old(self).extension_counts@[i] < usize::MAX {
                            (old(self).extension_counts@[i] + 1) as usize
                        } else {
                            old(self).extension_counts@[i]
                        }),
                    )
                } else {
                    final(self).extension_names@.map_values(|s: String| s@) == names.push(ext@)
                        && final(self).extension_counts@ == old(self).extension_counts@.push(
                        1usize,
                    )
                }
            }),
    {
        let ghost names = self.extension_names@.map_values(|s: String| s@);
        let n = self.extension_names.len();
        let ev = chars_of(ext.as_str());
        let mut i: usize = 0;
        while i < n
            invariant
                self == old(self),
                n == self.extension_names@.len(),
                names == self.extension_names@.map_values(|s: String| s@),
                0 <= i <= n,
                forall|j: int| 0 <= j < i ==> names[j] != ext@,
            decreases n - i,
        {
            let nv = chars_of(self.extension_names[i].as_str());
            assert(nv@ == names[i as int]);
            if eq_chars(&nv, &ev) {
                proof {
                    lemma_ext_index_hit(names, ext@, i as int);
                }
                let c = self.extension_counts[i];
                if c < usize::MAX {
                    self.extension_counts[i] = c + 1;
                } else {
                    self.extension_counts[i] = c;
                }
                assert(self.extension_counts@ =~= old(self).extension_counts@.update(
                    i as int,
                    self.extension_counts@[i as int],
                ));
                if self.total_files < usize::MAX {
                    self.total_files = self.total_files + 1;
                }
                return ;
            }
            proof {
                lemma_ext_index_step(names, ext@, i as int);
            }
            i = i + 1;
        }
        proof {
            lemma_ext_index_all(names, ext@);
        }
        let ghost ext_view = ext@;
        self.extension_names.push(ext);
        self.extension_counts.push(1);
        proof {
            let m = self.extension_names@.map_values(|s: String| s@);
            assert(m.len() == names.len() + 1);
            assert(forall|j: int| 0 <= j < names.len() ==> m[j] == names[j]);
            assert(m[names.len() as int] == ext_view);
            assert(m =~= names.push(ext_view));
        }
        if self.total_files < usize::MAX {
            self.total_files = self.total_files + 1;
        }
    }

    /// Record a file name.
    pub fn add_file(&mut self, file_name: String)
        ensures
            final(self).file_names@ == old(self).file_names@.push(file_name),
            final(self).total_files == old(self).total_files,
            final(self).extension_names == old(self).extension_names,
            final(self).extension_counts == old(self).extension_counts,
    {
        self.file_names.push(file_name);
    }

    /// Sort the recorded file names.
    pub fn sort_files(&mut self)
        ensures
            final(self).file_names@.map_values(|s: String| s@).to_multiset() == old(
                self,
            ).file_names@.map_values(|s: String| s@).to_multiset(),
            forall|i: int, j: int|
                0 <= i < j < final(self).file_names@.len() ==> chars_le(
                    final(self).file_names@[i]@,
                    final(self).file_names@[j]@,
                ),
            final(self).total_files == old(self).total_files,
            final(self).extension_names == old(self).extension_names,
            final(self).extension_counts == old(self).extension_counts,
    {
        sort_strings(&mut self.file_names);
    }

    /// How many files of this extension have been recorded.
    #[verifier::loop_isolation(false)]
    pub fn extension_count(&self, ext: &str) -> (r: usize)
        requires
            self.wf(),
        ensures
            ({
                let names = self.extension_names@.map_values(|s: String| s@);
                let i = ext_index(names, ext@);
                if i < names.len() {
                    r == self.extension_counts@[i]
                } else {
                    r == 0
                }
            }),
    {
        let ghost names = self.extension_names@.map_values(|s: String| s@);
        let n = self.extension_names.len();
        let ev = chars_of(ext);
        let mut i: usize = 0;
        while i < n
            invariant
                0 <= i <= n,
                forall|j: int| 0 <= j < i ==> names[j] != ext@,
            decreases n - i,
        {
            let nv = chars_of(self.extension_names[i].as_str());
            assert(nv@ == names[i as int]);
            if eq_chars(&nv, &ev) {
                proof {
                    lemma_ext_index_hit(names, ext@, i as int);
                }
                return self.extension_counts[i];
            }
            proof {
                lemma_ext_index_step(names, ext@, i as int);
            }
            i = i + 1;
        }
        proof {
            lemma_ext_index_all(names, ext@);
        }
        0
    }
}

/// A hit at `i` after misses everywhere earlier pins the index.
proof fn lemma_ext_index_hit(names: Seq<Seq<char>>, ext: Seq<char>, i: int)
    requires
        0 <= i < names.len(),
        names[i] == ext,
        forall|j: int| 0 <= j < i ==> names[j] != ext,
    ensures
        ext_index(names, ext) == i,
    decreases i,
{
    if i > 0 {
        assert(forall|j: int| 0 <= j < i - 1 ==> names.skip(1)[j] == names[j + 1]);
        assert(names.skip(1)[i - 1] == names[i]);
        lemma_ext_index_hit(names.skip(1), ext, i - 1);
    }
}

/// The index is never negative.
proof fn lemma_ext_index_nonneg(names: Seq<Seq<char>>, ext: Seq<char>)
    ensures
        ext_index(names, ext) >= 0,
    decreases names.len(),
{
    if names.len() > 0 && names[0] != ext {
        lemma_ext_index_nonneg(names.skip(1), ext);
    }
}

/// A miss at `i` pushes the index past it.
proof fn lemma_ext_index_step(names: Seq<Seq<char>>, ext: Seq<char>, i: int)
    requires
        0 <= i < names.len(),
        forall|j: int| 0 <= j <= i ==> names[j] != ext,
    ensures
        ext_index(names, ext) >= i + 1,
    decreases i,
{
    if i > 0 {
        assert(forall|j: int| 0 <= j <= i - 1 ==> names.skip(1)[j] == names[j + 1]);
        lemma_ext_index_step(names.skip(1), ext, i - 1);
    } else {
        lemma_ext_index_nonneg(names.skip(1), ext);
    }
}

/// With no hit anywhere the index is the length.
proof fn lemma_ext_index_all(names: Seq<Seq<char>>, ext: Seq<char>)
    requires
        forall|j: int| 0 <= j < names.len() ==> names[j] != ext,
    ensures
        ext_index(names, ext) == names.len(),
    decreases names.len(),
{
    if names.len() > 0 {
        assert(forall|j: int| 0 <= j < names.skip(1).len() ==> names.skip(1)[j] == names[j + 1]);
        lemma_ext_index_all(names.skip(1), ext);
    }
}

} // verus!
