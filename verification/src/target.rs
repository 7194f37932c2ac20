//! Targets: the files whose freshness and size are watched, and what an
//! inspection of one of them yields.

use vstd::prelude::*;
use vstd::string::{StrSliceExecFns, StringExecFns};

verus! {

/// What the file system reported of one file.
#[derive(Clone, Copy, Debug, PartialEq, Eq, Structural)]
pub struct FileStat {
    /// Time of the last modification, in seconds since the Unix epoch.
    pub modified_unix_seconds: u64,
    /// Size of the file in bytes.
    pub size_bytes: u64,
}

/// A target that could be inspected.
#[derive(Clone, Debug, PartialEq, Eq)]
pub struct TargetSample {
    pub path: String,
    pub last_modified_unix_seconds: u64,
    pub size_bytes: u64,
}

/// What a [`TargetSample`] stands for.
pub struct TargetSampleView {
    pub path: Seq<char>,
    pub last_modified_unix_seconds: u64,
    pub size_bytes: u64,
}

impl View for TargetSample {
    type V = TargetSampleView;

    open spec fn view(&self) -> TargetSampleView {
        TargetSampleView {
            path: self.path@,
            last_modified_unix_seconds: self.last_modified_unix_seconds,
            size_bytes: self.size_bytes,
        }
    }
}

/// A target that could not be inspected, and why.
#[derive(Clone, Debug, PartialEq, Eq)]
pub struct TargetUnavailable {
    pub path: String,
    pub cause: String,
}

/// What a [`TargetUnavailable`] stands for.
pub struct TargetUnavailableView {
    pub path: Seq<char>,
    pub cause: Seq<char>,
}

impl View for TargetUnavailable {
    type V = TargetUnavailableView;

    open spec fn view(&self) -> TargetUnavailableView {
        TargetUnavailableView { path: self.path@, cause: self.cause@ }
    }
}

/// The view of one inspection: of the sample, or of the failure.
pub open spec fn inspection_view(inspection: Result<TargetSample, TargetUnavailable>) -> Result<
    TargetSampleView,
    TargetUnavailableView,
> {
    match inspection {
        Ok(sample) => Ok(sample@),
        Err(failure) => Err(failure@),
    }
}

/// The views of a list of inspections, in the same order.
pub open spec fn inspection_views(
    inspections: Seq<Result<TargetSample, TargetUnavailable>>,
) -> Seq<Result<TargetSampleView, TargetUnavailableView>> {
    inspections.map_values(
        |inspection: Result<TargetSample, TargetUnavailable>| inspection_view(inspection),
    )
}

/// Turns what a metadata lookup on `path` gave into the outcome of the
/// inspection: the sample with the reported time and size, or a failure that
/// carries the path and the cause.
pub fn inspection(path: &str, lookup: Result<FileStat, String>) -> (outcome: Result<
    TargetSample,
    TargetUnavailable,
>)
    ensures
        inspection_view(outcome) == match lookup {
            Ok(stat) => Ok(
                TargetSampleView {
                    path: path@,
                    last_modified_unix_seconds: stat.modified_unix_seconds,
                    size_bytes: stat.size_bytes,
                },
            ),
            Err(cause) => Err(TargetUnavailableView { path: path@, cause: cause@ }),
        },
{
    match lookup {
        Ok(stat) => Ok(
            TargetSample {
                path: String::from_str(path),
                last_modified_unix_seconds: stat.modified_unix_seconds,
                size_bytes: stat.size_bytes,
            },
        ),
        Err(cause) => Err(TargetUnavailable { path: String::from_str(path), cause }),
    }
}

/// The paths that a semicolon-separated list names: the stretches between
/// the semicolons, in order, empty ones included. A list without a semicolon
/// names one path, the whole list.
pub open spec fn split_targets(list: Seq<char>) -> Seq<Seq<char>>
    decreases list.len(),
{
    if list.len() == 0 {
        seq![Seq::empty()]
    } else {
        let before = split_targets(list.drop_last());
        if list.last() == ';' {
            before.push(Seq::empty())
        } else {
            before.drop_last().push(before.last().push(list.last()))
        }
    }
}

/// The views of a list of paths, in the same order.
pub open spec fn path_views(paths: Seq<String>) -> Seq<Seq<char>> {
    paths.map_values(|path: String| path@)
}

/// A list of targets always names at least one path.
pub proof fn lemma_split_targets_nonempty(list: Seq<char>)
    ensures
        split_targets(list).len() >= 1,
    decreases list.len(),
{
    if list.len() > 0 {
        lemma_split_targets_nonempty(list.drop_last());
    }
}

/// Paths written one after the other with a semicolon between each two.
pub open spec fn join_targets(paths: Seq<Seq<char>>) -> Seq<char>
    decreases paths.len(),
{
    if paths.len() == 0 {
        Seq::empty()
    } else if paths.len() == 1 {
        paths[0]
    } else {
        join_targets(paths.drop_last()) + ";"@ + paths.last()
    }
}

/// Whether a path holds no semicolon.
pub open spec fn no_semicolon(path: Seq<char>) -> bool {
    forall|j: int| 0 <= j < path.len() ==> path[j] != ';'
}

/// Splitting undoes joining: the paths that a list names hold no semicolon,
/// and joined by semicolons they give the list back.
pub proof fn lemma_split_targets_undoes_join(list: Seq<char>)
    ensures
        join_targets(split_targets(list)) == list,
        forall|i: int|
            0 <= i < split_targets(list).len() ==> no_semicolon(#[trigger] split_targets(list)[i]),
    decreases list.len(),
{
    reveal_strlit(";");
    if list.len() > 0 {
        let before = split_targets(list.drop_last());
        lemma_split_targets_nonempty(list.drop_last());
        lemma_split_targets_undoes_join(list.drop_last());
        let pieces = split_targets(list);
        if list.last() == ';' {
            assert(pieces.drop_last() == before);
            assert(join_targets(pieces) == list.drop_last() + ";"@ + Seq::<char>::empty());
            assert(list.drop_last() + ";"@ + Seq::<char>::empty() == list);
        } else {
            let grown = before.last().push(list.last());
            assert(pieces.last() == grown);
            assert(pieces.drop_last() == before.drop_last());
            if before.len() == 1 {
                assert(join_targets(before) == before[0]);
                assert(grown == list);
            } else {
                assert(join_targets(pieces) == join_targets(before.drop_last()) + ";"@ + grown);
                assert(join_targets(before.drop_last()) + ";"@ + grown == (join_targets(
                    before.drop_last(),
                ) + ";"@ + before.last()).push(list.last()));
                assert(list.drop_last().push(list.last()) == list);
            }
            assert forall|i: int| 0 <= i < pieces.len() implies no_semicolon(
                #[trigger] pieces[i],
            ) by {
                if i < pieces.len() - 1 {
                    assert(pieces[i] == before[i]);
                } else {
                    assert(no_semicolon(before.last()));
                }
            }
        }
    }
}

/// Splits a semicolon-separated list of target paths.
pub fn parse_targets(list: &str) -> (targets: Vec<String>)
    ensures
        path_views(targets@) == split_targets(list@),
{
    let len = list.unicode_len();
    let mut targets: Vec<String> = Vec::new();
    let mut start: usize = 0;
    let mut pos: usize = 0;
    proof {
        assert(list@.take(0) =~= Seq::<char>::empty());
        assert(list@.subrange(0, 0) =~= Seq::<char>::empty());
        assert(path_views(targets@).push(Seq::<char>::empty()) =~= seq![Seq::<char>::empty()]);
    }
    while pos < len
        invariant
            len == list@.len(),
            start <= pos <= len,
            path_views(targets@).push(list@.subrange(start as int, pos as int)) == split_targets(
                list@.take(pos as int),
            ),
        decreases len - pos,
    {
        let c = list.get_char(pos);
        proof {
            let seen = list@.take(pos + 1);
            assert(seen.drop_last() == list@.take(pos as int));
            assert(seen.last() == c);
            lemma_split_targets_nonempty(list@.take(pos as int));
        }
        if c == ';' {
            let piece = list.substring_char(start, pos);
            let ghost before = path_views(targets@);
            targets.push(String::from_str(piece));
            start = pos + 1;
            proof {
                assert(path_views(targets@) == before.push(piece@));
                assert(list@.subrange(start as int, pos + 1) =~= Seq::<char>::empty());
            }
        } else {
            proof {
                let before = split_targets(list@.take(pos as int));
                assert(before.drop_last() == path_views(targets@));
                assert(before.last().push(c) == list@.subrange(start as int, pos + 1));
            }
        }
        pos += 1;
    }
    let piece = list.substring_char(start, len);
    let ghost before = path_views(targets@);
    targets.push(String::from_str(piece));
    proof {
        assert(path_views(targets@) == before.push(piece@));
        assert(list@.take(len as int) == list@);
    }
    targets
}

} // verus!
