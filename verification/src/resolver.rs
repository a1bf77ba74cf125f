//! The source resolver: turn a list of path strings plus a recursion flag
//! into an ordered list of per-path outcomes, `Ok(source)` or `Err(message)`,
//! never aborting on a single bad path.
//!
//! Reading filesystem metadata is the caller's concern: each path comes with
//! a `PathMeta` saying what the filesystem reported for it.  Directory trees
//! are walked here, through the `walk_tree` wrapper; what a walk yields
//! depends on the filesystem, so the contract of `find_files` holds for
//! every walk outcome.
use vstd::prelude::*;

use crate::strutil::concat_str;
use crate::strutil::is_stdin;

verus! {

/// The kind of one entry met during a directory walk.
#[derive(Clone, Copy, Debug, PartialEq, Eq, Structural)]
pub enum EntryType {
    Dir,
    File,
    Link,
}

/// What the filesystem said about one path: metadata could not be read (with
/// the error text), the path is a directory, a regular file, or some other
/// kind of object (socket, device).
pub enum PathMeta {
    Missing(String),
    Dir,
    File,
    Other,
}

/// The message for a directory met without recursion.
pub open spec fn dir_err_msg(path: Seq<char>) -> Seq<char> {
    path + " is a directory"@
}

/// The message for a path whose metadata could not be read.
pub open spec fn meta_err_msg(path: Seq<char>, err: Seq<char>) -> Seq<char> {
    path + ": "@ + err
}

/// The paths of the regular files among the walked entries, in walk order.
pub open spec fn walked_files(walked: Seq<(Seq<char>, Option<EntryType>)>) -> Seq<Seq<char>> {
    walked.filter(|e: (Seq<char>, Option<EntryType>)| e.1 == Some(EntryType::File)).map_values(
        |e: (Seq<char>, Option<EntryType>)| e.0,
    )
}

/// The `Ok` entries for a list of file paths, in order.
pub open spec fn ok_entries(files: Seq<Seq<char>>) -> Seq<Result<Seq<char>, Seq<char>>> {
    files.map_values(|f: Seq<char>| Ok::<Seq<char>, Seq<char>>(f))
}

/// The view of a list of resolved entries: each `Ok` path or `Err` message
/// as a sequence of characters.
pub open spec fn entries_view(entries: Seq<Result<String, String>>) -> Seq<
    Result<Seq<char>, Seq<char>>,
> {
    entries.map_values(
        |entry: Result<String, String>|
            match entry {
                Ok(path) => Ok::<Seq<char>, Seq<char>>(path@),
                Err(msg) => Err::<Seq<char>, Seq<char>>(msg@),
            },
    )
}

/// The view of walked entries handed over by the walk wrapper.
pub open spec fn walked_view(walked: Seq<(String, Option<EntryType>)>) -> Seq<
    (Seq<char>, Option<EntryType>),
> {
    walked.map_values(|e: (String, Option<EntryType>)| (e.0@, e.1))
}

/// The outcomes one path contributes, in order: the stdin sentinel always
/// resolves to itself; otherwise metadata decides: unreadable metadata is one
/// error, a directory is walked when recursion is on and is one error when it
/// is off, a regular file is itself, and any other kind contributes nothing.
pub open spec fn expand_path_spec(
    path: Seq<char>,
    meta: PathMeta,
    recursive: bool,
    walked: Seq<(Seq<char>, Option<EntryType>)>,
) -> Seq<Result<Seq<char>, Seq<char>>> {
    if path == "-"@ {
        seq![Ok(path)]
    } else {
        match meta {
            PathMeta::Missing(err) => seq![Err(meta_err_msg(path, err@))],
            PathMeta::Dir => if recursive {
                ok_entries(walked_files(walked))
            } else {
                seq![Err(dir_err_msg(path))]
            },
            PathMeta::File => seq![Ok(path)],
            PathMeta::Other => Seq::empty(),
        }
    }
}

/// Relies on walkdir::WalkDir: enumerates the tree under `root` in traversal
/// order, silently skipping entries that cannot be read, and classifies each
/// yielded entry by its file type.  What a walk yields depends on the
/// filesystem, so nothing is promised of the result.
#[verifier::external_body]
fn walk_tree(root: &str) -> Vec<(String, Option<EntryType>)> {
    let mut out = Vec::new();
    for entry in walkdir::WalkDir::new(root).into_iter().flatten() {
        let ft = entry.file_type();
        let kind = if ft.is_dir() {
            Some(EntryType::Dir)
        } else if ft.is_file() {
            Some(EntryType::File)
        } else if ft.is_symlink() {
            Some(EntryType::Link)
        } else {
            None
        };
        out.push((entry.path().display().to_string(), kind));
    }
    out
}

/// Resolve one path against what the filesystem said about it, with the
/// walked entries of its tree when it is a directory met recursively.
pub fn expand_path(
    path: &str,
    meta: &PathMeta,
    recursive: bool,
    walked: &Vec<(String, Option<EntryType>)>,
) -> (entries: Vec<Result<String, String>>)
    ensures
        entries_view(entries@) == expand_path_spec(path@, *meta, recursive, walked_view(walked@)),
{
    let mut entries: Vec<Result<String, String>> = Vec::new();
    if is_stdin(path) {
        entries.push(Ok(String::from_str(path)));
        proof {
            assert(entries_view(entries@) =~= seq![Ok::<Seq<char>, Seq<char>>(path@)]);
        }
    } else {
        match meta {
            PathMeta::Missing(err) => {
                let mut msg = concat_str(path, ": ");
                msg.append(err.as_str());
                entries.push(Err(msg));
                proof {
                    assert(entries_view(entries@) =~= seq![
                        Err::<Seq<char>, Seq<char>>(meta_err_msg(path@, err@)),
                    ]);
                }
            },
            PathMeta::Dir => {
                if recursive {
                    push_walked_files(&mut entries, walked);
                    proof {
                        assert(entries_view(entries@) =~= ok_entries(
                            walked_files(walked_view(walked@)),
                        ));
                    }
                } else {
                    entries.push(Err(concat_str(path, " is a directory")));
                    proof {
                        assert(entries_view(entries@) =~= seq![
                            Err::<Seq<char>, Seq<char>>(dir_err_msg(path@)),
                        ]);
                    }
                }
            },
            PathMeta::File => {
                entries.push(Ok(String::from_str(path)));
                proof {
                    assert(entries_view(entries@) =~= seq![Ok::<Seq<char>, Seq<char>>(path@)]);
                }
            },
            PathMeta::Other => {
                proof {
                    assert(entries_view(entries@) =~= Seq::<Result<Seq<char>, Seq<char>>>::empty());
                }
            },
        }
    }
    entries
}

/// Append, in walk order, an `Ok` entry for every regular file among the
/// walked entries.
fn push_walked_files(
    entries: &mut Vec<Result<String, String>>,
    walked: &Vec<(String, Option<EntryType>)>,
)
    ensures
        entries_view(final(entries)@) == entries_view(old(entries)@) + ok_entries(
            walked_files(walked_view(walked@)),
        ),
{
    let ghost w = walked_view(walked@);
    let ghost base = entries_view(old(entries)@);
    proof {
        reveal(Seq::filter);
        assert(walked_files(w.subrange(0, 0)) =~= Seq::<Seq<char>>::empty());
        assert(base + ok_entries(walked_files(w.subrange(0, 0))) =~= base);
    }
    for i in 0..walked.len()
        invariant
            w == walked_view(walked@),
            base == entries_view(old(entries)@),
            w.len() == walked.len(),
            entries_view(entries@) == base + ok_entries(walked_files(w.subrange(0, i as int))),
    {
        let ghost elem = w[i as int];
        let ghost prefix = w.subrange(0, i as int);
        let keep = match &walked[i].1 {
            Some(EntryType::File) => true,
            _ => false,
        };
        proof {
            reveal(Seq::filter);
            assert(elem == (walked@[i as int].0@, walked@[i as int].1));
            assert(keep == (elem.1 == Some(EntryType::File)));
            assert(w.subrange(0, i + 1 as int) =~= prefix.push(elem));
            assert(prefix.push(elem).drop_last() =~= prefix);
            assert(walked_files(prefix.push(elem)) =~= if elem.1 == Some(EntryType::File) {
                walked_files(prefix).push(elem.0)
            } else {
                walked_files(prefix)
            });
        }
        if keep {
            let file = walked[i].0.clone();
            proof {
                assert(file@ == elem.0);
            }
            entries.push(Ok(file));
            proof {
                assert(entries_view(entries@) =~= (base + ok_entries(walked_files(prefix))).push(
                    Ok(elem.0),
                ));
                assert(base + ok_entries(walked_files(prefix).push(elem.0)) =~= (base + ok_entries(
                    walked_files(prefix),
                )).push(Ok(elem.0)));
                assert(entries_view(entries@) =~= base + ok_entries(
                    walked_files(prefix.push(elem)),
                ));
            }
        } else {
            proof {
                assert(entries_view(entries@) =~= base + ok_entries(
                    walked_files(prefix.push(elem)),
                ));
            }
        }
    }
    proof {
        assert(w.subrange(0, w.len() as int) =~= w);
    }
}

/// The contributions of the paths with indices in `[from, to)`, in input
/// order: the concatenation of each path's own contribution.
pub open spec fn resolve_range(
    paths: Seq<Seq<char>>,
    metas: Seq<PathMeta>,
    recursive: bool,
    walks: Seq<Seq<(Seq<char>, Option<EntryType>)>>,
    from: int,
    to: int,
) -> Seq<Result<Seq<char>, Seq<char>>>
    decreases to - from,
{
    if from >= to {
        Seq::empty()
    } else {
        expand_path_spec(paths[from], metas[from], recursive, walks[from]) + resolve_range(
            paths,
            metas,
            recursive,
            walks,
            from + 1,
            to,
        )
    }
}

/// The outcomes of a whole path list: every path's contribution, in input
/// order, with `walks[i]` the entries walked under path `i`.
pub open spec fn resolve_all_spec(
    paths: Seq<Seq<char>>,
    metas: Seq<PathMeta>,
    recursive: bool,
    walks: Seq<Seq<(Seq<char>, Option<EntryType>)>>,
) -> Seq<Result<Seq<char>, Seq<char>>> {
    resolve_range(paths, metas, recursive, walks, 0, paths.len() as int)
}

/// A range of contributions splits at any midpoint.
pub proof fn lemma_resolve_range_concat(
    paths: Seq<Seq<char>>,
    metas: Seq<PathMeta>,
    recursive: bool,
    walks: Seq<Seq<(Seq<char>, Option<EntryType>)>>,
    from: int,
    mid: int,
    to: int,
)
    requires
        from <= mid <= to,
    ensures
        resolve_range(paths, metas, recursive, walks, from, to) == resolve_range(
            paths,
            metas,
            recursive,
            walks,
            from,
            mid,
        ) + resolve_range(paths, metas, recursive, walks, mid, to),
    decreases mid - from,
{
    if from >= mid {
        assert(resolve_range(paths, metas, recursive, walks, from, mid) + resolve_range(
            paths,
            metas,
            recursive,
            walks,
            mid,
            to,
        ) =~= resolve_range(paths, metas, recursive, walks, mid, to));
    } else {
        lemma_resolve_range_concat(paths, metas, recursive, walks, from + 1, mid, to);
        assert(expand_path_spec(paths[from], metas[from], recursive, walks[from]) + (resolve_range(
            paths,
            metas,
            recursive,
            walks,
            from + 1,
            mid,
        ) + resolve_range(paths, metas, recursive, walks, mid, to)) =~= (expand_path_spec(
            paths[from],
            metas[from],
            recursive,
            walks[from],
        ) + resolve_range(paths, metas, recursive, walks, from + 1, mid)) + resolve_range(
            paths,
            metas,
            recursive,
            walks,
            mid,
            to,
        ));
    }
}

/// A range of contributions does not look at walks beyond its end.
proof fn lemma_resolve_range_walks_push(
    paths: Seq<Seq<char>>,
    metas: Seq<PathMeta>,
    recursive: bool,
    walks: Seq<Seq<(Seq<char>, Option<EntryType>)>>,
    w: Seq<(Seq<char>, Option<EntryType>)>,
    from: int,
    to: int,
)
    requires
        0 <= from,
        to <= walks.len(),
    ensures
        resolve_range(paths, metas, recursive, walks.push(w), from, to) == resolve_range(
            paths,
            metas,
            recursive,
            walks,
            from,
            to,
        ),
    decreases to - from,
{
    if from < to {
        assert(walks.push(w)[from] == walks[from]);
        lemma_resolve_range_walks_push(paths, metas, recursive, walks, w, from + 1, to);
    }
}

/// Resolve the whole path list, in input order, against what the filesystem
/// said about each path, walking directory trees when `recursive` is on.
/// The result is each path's own contribution, concatenated: one failure
/// never prevents resolution of the paths beside it.  The walked entries
/// depend on the filesystem, so the contract holds for some walk outcome per
/// path.
pub fn find_files(paths: &Vec<String>, metas: &Vec<PathMeta>, recursive: bool) -> (entries: Vec<
    Result<String, String>,
>)
    requires
        paths@.len() == metas@.len(),
    ensures
        exists|walks: Seq<Seq<(Seq<char>, Option<EntryType>)>>|
            walks.len() == paths@.len() && entries_view(entries@) == resolve_all_spec(
                paths.deep_view(),
                metas@,
                recursive,
                walks,
            ),
{
    let mut entries: Vec<Result<String, String>> = Vec::new();
    let ghost mut walks: Seq<Seq<(Seq<char>, Option<EntryType>)>> = Seq::empty();
    proof {
        assert(entries_view(entries@) =~= resolve_range(
            paths.deep_view(),
            metas@,
            recursive,
            walks,
            0,
            0,
        ));
    }
    for i in 0..paths.len()
        invariant
            paths@.len() == metas@.len(),
            paths.deep_view().len() == paths@.len(),
            walks.len() == i,
            entries_view(entries@) == resolve_range(
                paths.deep_view(),
                metas@,
                recursive,
                walks,
                0,
                i as int,
            ),
    {
        let path = &paths[i];
        let meta = &metas[i];
        let need_walk = recursive && !is_stdin(path.as_str()) && (match meta {
            PathMeta::Dir => true,
            _ => false,
        });
        let walked: Vec<(String, Option<EntryType>)> = if need_walk {
            walk_tree(path.as_str())
        } else {
            Vec::new()
        };
        let ghost entries_before = entries_view(entries@);
        let mut sub = expand_path(path.as_str(), meta, recursive, &walked);
        let ghost sub_view = entries_view(sub@);
        entries.append(&mut sub);
        proof {
            let w = walked_view(walked@);
            lemma_resolve_range_walks_push(
                paths.deep_view(),
                metas@,
                recursive,
                walks,
                w,
                0,
                i as int,
            );
            walks = walks.push(w);
            lemma_resolve_range_concat(
                paths.deep_view(),
                metas@,
                recursive,
                walks,
                0,
                i as int,
                i + 1,
            );
            assert(paths.deep_view()[i as int] == paths@[i as int]@);
            assert(walks[i as int] == w);
            assert(sub_view == expand_path_spec(paths@[i as int]@, metas@[i as int], recursive, w));
            assert(resolve_range(paths.deep_view(), metas@, recursive, walks, i + 1, i + 1)
                =~= Seq::<Result<Seq<char>, Seq<char>>>::empty());
            assert(resolve_range(paths.deep_view(), metas@, recursive, walks, i as int, i + 1)
                =~= expand_path_spec(paths.deep_view()[i as int], metas@[i as int], recursive, w));
            assert(entries_view(entries@) =~= entries_before + sub_view);
        }
    }
    proof {
        assert(walks.len() == paths@.len() && entries_view(entries@) == resolve_all_spec(
            paths.deep_view(),
            metas@,
            recursive,
            walks,
        ));
    }
    entries
}

/// A directory met without recursion yields exactly one entry: the error
/// `"{path} is a directory"`.
pub proof fn lemma_dir_without_recursion(
    path: Seq<char>,
    walked: Seq<(Seq<char>, Option<EntryType>)>,
)
    requires
        path != "-"@,
    ensures
        expand_path_spec(path, PathMeta::Dir, false, walked) == seq![
            Err::<Seq<char>, Seq<char>>(dir_err_msg(path)),
        ],
{
}

/// A directory met with recursion yields exactly one `Ok` entry for each
/// regular file the walk found under it, in walk order, and nothing else.
pub proof fn lemma_dir_with_recursion(path: Seq<char>, walked: Seq<(Seq<char>, Option<EntryType>)>)
    requires
        path != "-"@,
    ensures
        expand_path_spec(path, PathMeta::Dir, true, walked).len() == walked_files(walked).len(),
        forall|i: int|
            0 <= i < walked_files(walked).len() ==> expand_path_spec(path, PathMeta::Dir, true, walked)[i]
                == Ok::<Seq<char>, Seq<char>>(walked_files(walked)[i]),
{
}

/// A path whose metadata cannot be read yields exactly one entry: the error
/// `"{path}: {message}"`.
pub proof fn lemma_missing_path(
    path: Seq<char>,
    meta: PathMeta,
    recursive: bool,
    walked: Seq<(Seq<char>, Option<EntryType>)>,
)
    requires
        path != "-"@,
        meta is Missing,
    ensures
        meta matches PathMeta::Missing(err) ==> expand_path_spec(path, meta, recursive, walked)
            == seq![Err::<Seq<char>, Seq<char>>(meta_err_msg(path, err@))],
{
}

/// One path's outcome never disturbs its siblings': the whole resolution is
/// each path's own contribution, concatenated in input order, whatever the
/// contributions around it are.
pub proof fn lemma_failure_isolated(
    paths: Seq<Seq<char>>,
    metas: Seq<PathMeta>,
    recursive: bool,
    walks: Seq<Seq<(Seq<char>, Option<EntryType>)>>,
    i: int,
)
    requires
        0 <= i < paths.len(),
    ensures
        resolve_all_spec(paths, metas, recursive, walks) == resolve_range(
            paths,
            metas,
            recursive,
            walks,
            0,
            i,
        ) + expand_path_spec(paths[i], metas[i], recursive, walks[i]) + resolve_range(
            paths,
            metas,
            recursive,
            walks,
            i + 1,
            paths.len() as int,
        ),
{
    let len = paths.len() as int;
    lemma_resolve_range_concat(paths, metas, recursive, walks, 0, i, len);
    lemma_resolve_range_concat(paths, metas, recursive, walks, i, i + 1, len);
    assert(resolve_range(paths, metas, recursive, walks, i, i + 1) =~= expand_path_spec(
        paths[i],
        metas[i],
        recursive,
        walks[i],
    ));
    assert(resolve_range(paths, metas, recursive, walks, 0, i) + (expand_path_spec(
        paths[i],
        metas[i],
        recursive,
        walks[i],
    ) + resolve_range(paths, metas, recursive, walks, i + 1, len)) =~= resolve_range(
        paths,
        metas,
        recursive,
        walks,
        0,
        i,
    ) + expand_path_spec(paths[i], metas[i], recursive, walks[i]) + resolve_range(
        paths,
        metas,
        recursive,
        walks,
        i + 1,
        len,
    ));
}

} // verus!
