//! Choosing the files of an audit target.
//!
//! Resolving the target path, asking the file system what it is and walking
//! a directory happen outside the library; they arrive here as a
//! [`TargetEntry`]. The library decides which files are audited: those of a
//! supported language that no ignore glob matches, in path order.

use vstd::prelude::*;
use vstd::string::StringSliceAdditionalSpecFns;

use crate::config::{parent_dir, path_parent};
use crate::parser::{detect_language, language_of_path};
use crate::types::strings_view;

verus! {

#[verifier::external_type_specification]
#[verifier::external_body]
pub struct ExGlobSet(globset::GlobSet);

#[verifier::external_type_specification]
#[verifier::external_body]
pub struct ExGlobSetBuilder(globset::GlobSetBuilder);

#[verifier::external_type_specification]
#[verifier::external_body]
pub struct ExGlobError(globset::Error);

/// The glob patterns a `globset::GlobSetBuilder` holds, in the order added.
pub uninterp spec fn builder_patterns(builder: globset::GlobSetBuilder) -> Seq<Seq<char>>;

/// The glob patterns a `globset::GlobSet` holds, in the order added.
pub uninterp spec fn set_patterns(set: globset::GlobSet) -> Seq<Seq<char>>;

/// Whether `globset::Glob::new` accepts a pattern.
pub uninterp spec fn glob_valid(pattern: Seq<char>) -> bool;

/// Whether the glob compiled from `pattern` with default options matches
/// `path`.
pub uninterp spec fn glob_matches(pattern: Seq<char>, path: Seq<char>) -> bool;

/// Whether `globset::GlobSet::new` builds a set from the globs compiled
/// (with default options) from `patterns`.
pub uninterp spec fn glob_set_builds(patterns: Seq<Seq<char>>) -> bool;

/// Whether `std::path::Path`'s order puts `a` before `b`.
pub uninterp spec fn path_before(a: Seq<char>, b: Seq<char>) -> bool;

/// `globset::GlobSetBuilder::new`: a builder holding no glob.
#[verifier::external_body]
fn new_glob_builder() -> (r: globset::GlobSetBuilder)
    ensures
        builder_patterns(r) == Seq::<Seq<char>>::empty(),
{
    globset::GlobSetBuilder::new()
}

/// `globset::Glob::new` followed by `globset::GlobSetBuilder::add`: compiles
/// `pattern` and adds it to the builder. The contract claims that this fails
/// exactly on the patterns [`glob_valid`] refuses, and that success appends
/// the pattern while failure leaves the builder as it was.
#[verifier::external_body]
fn add_glob(builder: &mut globset::GlobSetBuilder, pattern: &str) -> (r: Result<(), globset::Error>)
    ensures
        r is Ok <==> glob_valid(pattern@),
        r is Ok ==> builder_patterns(*final(builder)) == builder_patterns(*old(builder)).push(
            pattern@,
        ),
        r is Err ==> builder_patterns(*final(builder)) == builder_patterns(*old(builder)),
{
    let glob = globset::Glob::new(pattern)?;
    builder.add(glob);
    Ok(())
}

/// `globset::GlobSetBuilder::build`: the set of the globs added. With globs
/// it may fail (the compiled matchers have fixed size limits), which depends
/// on the globs alone and is named by [`glob_set_builds`]; with none it
/// returns the empty set, as `GlobSet::new` does for an empty list. The
/// contract claims that, and that a set it returns holds the builder's globs.
#[verifier::external_body]
fn build_glob_set(builder: &globset::GlobSetBuilder) -> (r: Result<globset::GlobSet, globset::Error>)
    ensures
        r is Ok <==> glob_set_builds(builder_patterns(*builder)),
        builder_patterns(*builder).len() == 0 ==> r is Ok,
        r matches Ok(set) ==> set_patterns(set) == builder_patterns(*builder),
{
    builder.build()
}

/// `globset::GlobSet::is_match`: whether any glob of the set matches `path`,
/// as its documentation says.
#[verifier::external_body]
fn glob_set_matches(set: &globset::GlobSet, path: &str) -> (r: bool)
    ensures
        r == (exists|i: int| 0 <= i < set_patterns(*set).len() && #[trigger] glob_matches(set_patterns(*set)[i], path@)),
{
    set.is_match(path)
}

/// `<` on `std::path::Path`, which compares paths component by component.
/// The contract claims only that the answer is named by [`path_before`].
#[verifier::external_body]
fn path_less(a: &str, b: &str) -> (r: bool)
    ensures
        r == path_before(a@, b@),
{
    std::path::Path::new(a) < std::path::Path::new(b)
}

/// Some pattern of `patterns` matches `path`.
pub open spec fn ignored_by(patterns: Seq<Seq<char>>, path: Seq<char>) -> bool {
    exists|i: int| 0 <= i < patterns.len() && #[trigger] glob_matches(patterns[i], path)
}

/// Some pattern of `patterns` is not a valid glob.
pub open spec fn has_invalid_glob(patterns: Seq<Seq<char>>) -> bool {
    exists|i: int| 0 <= i < patterns.len() && !#[trigger] glob_valid(patterns[i])
}

/// Compiles the ignore globs into one set. An invalid pattern fails the
/// compilation; no pattern at all gives the empty set; a set returned holds
/// every pattern, in order.
pub fn compile_ignore_set(ignore_paths: &Vec<String>) -> (r: Result<globset::GlobSet, globset::Error>)
    ensures
        r is Ok <==> (!has_invalid_glob(strings_view(ignore_paths@)) && glob_set_builds(
            strings_view(ignore_paths@),
        )),
        has_invalid_glob(strings_view(ignore_paths@)) ==> r is Err,
        ignore_paths@.len() == 0 ==> r is Ok,
        r matches Ok(set) ==> set_patterns(set) == strings_view(ignore_paths@),
{
    let ghost pats = strings_view(ignore_paths@);
    let mut builder = new_glob_builder();
    let mut i: usize = 0;
    assert(pats.subrange(0, 0) =~= Seq::<Seq<char>>::empty());
    while i < ignore_paths.len()
        invariant
            i <= ignore_paths@.len(),
            pats == strings_view(ignore_paths@),
            builder_patterns(builder) == pats.subrange(0, i as int),
            forall|k: int| 0 <= k < i ==> glob_valid(#[trigger] pats[k]),
        decreases ignore_paths@.len() - i,
    {
        match add_glob(&mut builder, ignore_paths[i].as_str()) {
            Ok(()) => {},
            Err(e) => {
                assert(!glob_valid(pats[i as int]));
                assert(has_invalid_glob(pats));
                return Err(e);
            },
        }
        assert(pats.subrange(0, i + 1) =~= pats.subrange(0, i as int).push(pats[i as int]));
        i = i + 1;
    }
    assert(pats.subrange(0, pats.len() as int) =~= pats);
    build_glob_set(&builder)
}

/// A regular file met while walking a target directory.
#[derive(Debug)]
pub struct WalkedFile {
    /// Path of the file.
    pub path: String,
    /// Path relative to the target directory, which ignore globs match.
    pub relative: String,
}

/// What the file system says about a resolved target path.
#[derive(Debug)]
pub enum TargetEntry {
    /// Nothing exists at the path.
    Missing,
    /// The path is a file.
    File,
    /// The path is a directory; its regular files, in walk order.
    Directory(Vec<WalkedFile>),
}

/// Discovered audit target after file expansion and ignore filtering.
#[derive(Debug)]
pub struct AuditTarget {
    /// Root directory used for relative paths and reports.
    pub root_dir: String,
    /// Files that remain after discovery and ignore filtering.
    pub files: Vec<String>,
}

/// Errors returned while preparing an audit target.
#[derive(Debug)]
pub enum DiscoverAuditTargetError {
    /// The target path does not exist.
    MissingPath(String),
    /// The target path exists but no supported files were found.
    NoSupportedFiles(String),
    /// An ignore glob failed to compile.
    Glob(globset::Error),
}

/// The walked files kept: of a supported language and matched by no ignore
/// pattern, in walk order.
pub open spec fn kept_files(walked: Seq<WalkedFile>, patterns: Seq<Seq<char>>) -> Seq<Seq<char>>
    decreases walked.len(),
{
    if walked.len() == 0 {
        Seq::empty()
    } else {
        let before = kept_files(walked.drop_last(), patterns);
        let w = walked.last();
        if language_of_path(vstd::utf8::encode_utf8(w.path@)) is Some && !ignored_by(patterns, w.relative@) {
            before.push(w.path@)
        } else {
            before
        }
    }
}

/// Inserts `x` into `s` before the first element it comes before.
pub open spec fn insert_path(s: Seq<Seq<char>>, x: Seq<char>) -> Seq<Seq<char>>
    decreases s.len(),
{
    if s.len() == 0 {
        seq![x]
    } else if path_before(x, s[0]) {
        seq![x] + s
    } else {
        seq![s[0]] + insert_path(s.drop_first(), x)
    }
}

/// `s` sorted by insertion in path order.
pub open spec fn sort_paths(s: Seq<Seq<char>>) -> Seq<Seq<char>>
    decreases s.len(),
{
    if s.len() == 0 {
        s
    } else {
        insert_path(sort_paths(s.drop_last()), s.last())
    }
}

proof fn lemma_insert_path_at(s: Seq<Seq<char>>, x: Seq<char>, k: int)
    requires
        0 <= k <= s.len(),
        forall|j: int| 0 <= j < k ==> !path_before(x, #[trigger] s[j]),
        k < s.len() ==> path_before(x, s[k]),
    ensures
        insert_path(s, x) == s.insert(k, x),
    decreases s.len(),
{
    if s.len() == 0 {
        assert(s.insert(k, x) =~= seq![x]);
    } else if k == 0 {
        assert(s.insert(k, x) =~= seq![x] + s);
    } else {
        let t = s.drop_first();
        assert forall|j: int| 0 <= j < k - 1 implies !path_before(x, #[trigger] t[j]) by {
            assert(t[j] == s[j + 1]);
        }
        lemma_insert_path_at(t, x, k - 1);
        assert(s.insert(k, x) =~= seq![s[0]] + t.insert(k - 1, x));
    }
}

/// Sorts paths into path order by insertion.
pub fn sort_path_list(paths: Vec<String>) -> (r: Vec<String>)
    ensures
        strings_view(r@) == sort_paths(strings_view(paths@)),
{
    let ghost orig = strings_view(paths@);
    let n: usize = paths.len();
    let mut rest = paths;
    let mut out: Vec<String> = Vec::new();
    let mut i: usize = 0;
    assert(orig.subrange(0, 0) =~= Seq::<Seq<char>>::empty());
    while i < n
        invariant
            i <= n,
            n == orig.len(),
            rest@.len() == n - i,
            strings_view(rest@) =~= orig.subrange(i as int, n as int),
            strings_view(out@) == sort_paths(orig.subrange(0, i as int)),
        decreases n - i,
    {
        let ghost old_rest = rest@;
        assert(strings_view(old_rest)[0] == old_rest[0]@);
        let x = rest.remove(0);
        assert(x@ == orig[i as int]);
        assert forall|j: int| 0 <= j < rest@.len() implies #[trigger] strings_view(rest@)[j]
            == orig[i + 1 + j] by {
            assert(rest@[j] == old_rest[j + 1]);
            assert(strings_view(old_rest)[j + 1] == orig.subrange(i as int, n as int)[j + 1]);
        }
        assert(strings_view(rest@) =~= orig.subrange(i + 1, n as int));
        let mut k: usize = 0;
        while k < out.len()
            invariant
                k <= out@.len(),
                forall|j: int| 0 <= j < k ==> !path_before(x@, #[trigger] strings_view(out@)[j]),
            ensures
                k <= out@.len(),
                forall|j: int| 0 <= j < k ==> !path_before(x@, #[trigger] strings_view(out@)[j]),
                k < out@.len() ==> path_before(x@, strings_view(out@)[k as int]),
            decreases out@.len() - k,
        {
            if path_less(x.as_str(), out[k].as_str()) {
                break;
            }
            k = k + 1;
        }
        proof {
            lemma_insert_path_at(strings_view(out@), x@, k as int);
            assert(orig.subrange(0, i + 1).drop_last() =~= orig.subrange(0, i as int));
        }
        let ghost before = out@;
        out.insert(k, x);
        assert(strings_view(out@) =~= strings_view(before).insert(k as int, x@));
        i = i + 1;
    }
    assert(orig.subrange(0, n as int) =~= orig);
    out
}

/// The root directory of a file target: its parent, or `.` when it has none.
pub open spec fn file_root(path: Seq<char>) -> Seq<char> {
    match path_parent(path) {
        Some(p) => p,
        None => "."@,
    }
}

/// Discovers the supported files of an audit target.
///
/// A missing target is an error. A file target is audited alone when its
/// language is supported, its parent being the root. A directory target keeps
/// each walked file of a supported language that no ignore glob matches
/// (relative to the directory), sorted by path; finding none is an error.
pub fn discover_audit_target(resolved: &str, entry: TargetEntry, ignore_paths: &Vec<String>) -> (r:
    Result<AuditTarget, DiscoverAuditTargetError>)
    ensures
        entry is Missing ==> (r matches Err(DiscoverAuditTargetError::MissingPath(p)) && p@
            == resolved@),
        entry is File ==> match r {
            Ok(t) => language_of_path(resolved.spec_bytes()) is Some && t.root_dir@ == file_root(
                resolved@,
            ) && strings_view(t.files@) == seq![resolved@],
            Err(DiscoverAuditTargetError::NoSupportedFiles(p)) => language_of_path(
                resolved.spec_bytes(),
            ) is None && p@ == resolved@,
            Err(_) => false,
        },
        entry matches TargetEntry::Directory(walked) ==> {
            let kept = kept_files(walked@, strings_view(ignore_paths@));
            &&& has_invalid_glob(strings_view(ignore_paths@)) ==> (r matches Err(
                DiscoverAuditTargetError::Glob(_),
            ))
            &&& !(r matches Err(DiscoverAuditTargetError::MissingPath(_)))
            &&& !has_invalid_glob(strings_view(ignore_paths@)) && glob_set_builds(
                strings_view(ignore_paths@),
            ) ==> (if kept.len() == 0 {
                r matches Err(DiscoverAuditTargetError::NoSupportedFiles(_))
            } else {
                r is Ok
            })
            &&& (r matches Err(DiscoverAuditTargetError::Glob(_)) ==> has_invalid_glob(
                strings_view(ignore_paths@),
            ) || !glob_set_builds(strings_view(ignore_paths@)))
            &&& ignore_paths@.len() == 0 ==> (if kept.len() == 0 {
                r matches Err(DiscoverAuditTargetError::NoSupportedFiles(_))
            } else {
                r is Ok
            })
            &&& (r matches Err(DiscoverAuditTargetError::NoSupportedFiles(p)) ==> kept.len() == 0
                && p@ == resolved@)
            &&& (r matches Ok(t) ==> kept.len() > 0 && t.root_dir@ == resolved@ && strings_view(
                t.files@,
            ) == sort_paths(kept))
        },
{
    match entry {
        TargetEntry::Missing => Err(DiscoverAuditTargetError::MissingPath(resolved.to_owned())),
        TargetEntry::File => {
            if detect_language(resolved).is_none() {
                return Err(DiscoverAuditTargetError::NoSupportedFiles(resolved.to_owned()));
            }
            let root_dir = match parent_dir(resolved) {
                Some(p) => p,
                None => ".".to_owned(),
            };
            proof {
                reveal_strlit(".");
            }
            let mut files: Vec<String> = Vec::new();
            files.push(resolved.to_owned());
            assert(strings_view(files@) =~= seq![resolved@]);
            Ok(AuditTarget { root_dir, files })
        },
        TargetEntry::Directory(walked) => {
            let set = match compile_ignore_set(ignore_paths) {
                Ok(s) => s,
                Err(e) => {
                    return Err(DiscoverAuditTargetError::Glob(e));
                },
            };
            let ghost pats = strings_view(ignore_paths@);
            let ghost all = walked@;
            let n: usize = walked.len();
            let mut files: Vec<String> = Vec::new();
            let mut i: usize = 0;
            while i < n
                invariant
                    i <= n,
                    n == walked@.len(),
                    all == walked@,
                    set_patterns(set) == pats,
                    strings_view(files@) == kept_files(all.subrange(0, i as int), pats),
                decreases n - i,
            {
                let w = &walked[i];
                proof {
                    assert(all.subrange(0, i + 1).drop_last() =~= all.subrange(0, i as int));
                    assert(all.subrange(0, i + 1).last() == all[i as int]);
                }
                if detect_language(w.path.as_str()).is_some() && !glob_set_matches(
                    &set,
                    w.relative.as_str(),
                ) {
                    let ghost before = files@;
                    files.push(w.path.as_str().to_owned());
                    assert(strings_view(files@) =~= strings_view(before).push(w.path@));
                }
                i = i + 1;
            }
            assert(all.subrange(0, n as int) =~= all);
            if files.len() == 0 {
                return Err(DiscoverAuditTargetError::NoSupportedFiles(resolved.to_owned()));
            }
            let files = sort_path_list(files);
            Ok(AuditTarget { root_dir: resolved.to_owned(), files })
        },
    }
}

/// A walked file is audited: its language is supported and no ignore
/// pattern matches its relative path.
pub open spec fn audited(w: WalkedFile, patterns: Seq<Seq<char>>) -> bool {
    language_of_path(vstd::utf8::encode_utf8(w.path@)) is Some && !ignored_by(patterns, w.relative@)
}

proof fn lemma_insert_path_multiset(s: Seq<Seq<char>>, x: Seq<char>)
    ensures
        insert_path(s, x).to_multiset() == s.to_multiset().insert(x),
    decreases s.len(),
{
    broadcast use vstd::seq_lib::group_to_multiset_ensures;

    if s.len() == 0 {
        assert(seq![x] =~= Seq::<Seq<char>>::empty().push(x));
    } else if path_before(x, s[0]) {
        lemma_prepend_path_multiset(s, x);
    } else {
        let t = s.drop_first();
        lemma_insert_path_multiset(t, x);
        lemma_prepend_path_multiset(insert_path(t, x), s[0]);
        lemma_prepend_path_multiset(t, s[0]);
        assert(seq![s[0]] + t =~= s);
        assert(t.to_multiset().insert(x).insert(s[0]) =~= t.to_multiset().insert(s[0]).insert(x));
    }
}

proof fn lemma_prepend_path_multiset(s: Seq<Seq<char>>, x: Seq<char>)
    ensures
        (seq![x] + s).to_multiset() == s.to_multiset().insert(x),
{
    broadcast use vstd::seq_lib::group_to_multiset_ensures;

    let t = seq![x] + s;
    assert(t.remove(0) =~= s);
    assert(t.to_multiset().count(x) > 0) by {
        assert(t.contains(x)) by {
            assert(t[0] == x);
        }
    }
    assert(t.to_multiset() =~= t.to_multiset().remove(x).insert(x));
}

/// Sorting by path keeps every path, as often as it occurs.
pub proof fn lemma_sort_paths_multiset(s: Seq<Seq<char>>)
    ensures
        sort_paths(s).to_multiset() == s.to_multiset(),
    decreases s.len(),
{
    broadcast use vstd::seq_lib::group_to_multiset_ensures;

    if s.len() > 0 {
        lemma_sort_paths_multiset(s.drop_last());
        lemma_insert_path_multiset(sort_paths(s.drop_last()), s.last());
        assert(s.drop_last().push(s.last()) =~= s);
    }
}

proof fn lemma_kept_files(walked: Seq<WalkedFile>, patterns: Seq<Seq<char>>)
    ensures
        forall|f: Seq<char>|
            #[trigger] kept_files(walked, patterns).contains(f) ==> exists|i: int|
                0 <= i < walked.len() && walked[i].path@ == f && audited(walked[i], patterns),
        forall|i: int|
            0 <= i < walked.len() && audited(#[trigger] walked[i], patterns) ==> kept_files(
                walked,
                patterns,
            ).contains(walked[i].path@),
    decreases walked.len(),
{
    if walked.len() > 0 {
        let init = walked.drop_last();
        lemma_kept_files(init, patterns);
        let before = kept_files(init, patterns);
        let kept = kept_files(walked, patterns);
        assert forall|f: Seq<char>| #[trigger] kept.contains(f) implies exists|i: int|
            0 <= i < walked.len() && walked[i].path@ == f && audited(walked[i], patterns) by {
            let k = choose|k: int| 0 <= k < kept.len() && kept[k] == f;
            if k < before.len() {
                assert(kept[k] == before[k]);
                assert(before.contains(f));
                let i = choose|i: int|
                    0 <= i < init.len() && init[i].path@ == f && audited(init[i], patterns);
                assert(walked[i] == init[i]);
            } else {
                assert(walked[walked.len() - 1] == walked.last());
            }
        }
        assert forall|i: int|
            0 <= i < walked.len() && audited(#[trigger] walked[i], patterns) implies kept.contains(
            walked[i].path@,
        ) by {
            if i < walked.len() - 1 {
                assert(walked[i] == init[i]);
                let k = choose|k: int| 0 <= k < before.len() && before[k] == walked[i].path@;
                assert(kept[k] == before[k]);
            } else {
                assert(kept[kept.len() - 1] == walked[i].path@);
            }
        }
    }
}

/// A directory target audits exactly the walked files that are of a
/// supported language and not ignored: every file it lists is one of them,
/// and each of them is listed.
pub proof fn lemma_directory_selection(walked: Seq<WalkedFile>, patterns: Seq<Seq<char>>)
    ensures
        forall|f: Seq<char>|
            #[trigger] sort_paths(kept_files(walked, patterns)).contains(f) ==> exists|i: int|
                0 <= i < walked.len() && walked[i].path@ == f && audited(walked[i], patterns),
        forall|i: int|
            0 <= i < walked.len() && audited(#[trigger] walked[i], patterns) ==> sort_paths(
                kept_files(walked, patterns),
            ).contains(walked[i].path@),
{
    broadcast use vstd::seq_lib::group_to_multiset_ensures;

    let kept = kept_files(walked, patterns);
    lemma_kept_files(walked, patterns);
    lemma_sort_paths_multiset(kept);
    assert forall|f: Seq<char>| #[trigger] sort_paths(kept).contains(f) implies kept.contains(f) by {
        assert(sort_paths(kept).to_multiset().count(f) > 0);
    }
    assert forall|f: Seq<char>| #[trigger] kept.contains(f) implies sort_paths(kept).contains(f) by {
        assert(kept.to_multiset().count(f) > 0);
    }
}

} // verus!
