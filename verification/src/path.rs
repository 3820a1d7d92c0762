//! Paths: what makes a path absolute, and what it is once normalised.

use crate::text::{
    chars_of, lemma_split_on, same_text, split_on, split_text, texts, viewed,
};
use vstd::prelude::*;
use vstd::string::*;

verus! {

/// Whether `path` starts at the root directory.
pub open spec fn is_absolute(path: Seq<char>) -> bool {
    path.len() > 0 && path[0] == '/'
}

/// The segments of `path`: what stands between its slashes, with what is empty
/// left out, so that neither a doubled slash nor one at the end counts.
pub open spec fn segments(path: Seq<char>) -> Seq<Seq<char>> {
    split_on(path, '/').filter(|piece: Seq<char>| piece.len() > 0)
}

/// Whether `segment` is `.` or `..`.
pub open spec fn is_dot_segment(segment: Seq<char>) -> bool {
    segment == seq!['.'] || segment == seq!['.', '.']
}

/// Whether `path` has a segment that is `.` or `..`.
pub open spec fn has_dot_segment(path: Seq<char>) -> bool {
    exists|i: int| 0 <= i < segments(path).len() && is_dot_segment(#[trigger] segments(path)[i])
}

/// `segments`, each behind a slash.
pub open spec fn slashed(segments: Seq<Seq<char>>) -> Seq<char>
    decreases segments.len(),
{
    if segments.len() == 0 {
        Seq::empty()
    } else {
        slashed(segments.drop_last()).push('/') + segments.last()
    }
}

/// The absolute path with these segments.
pub open spec fn rooted(segments: Seq<Seq<char>>) -> Seq<char> {
    if segments.len() == 0 {
        seq!['/']
    } else {
        slashed(segments)
    }
}

/// What `name` means inside the directory `dir`: an absolute name stands for
/// itself, any other is put behind the directory and a slash.
pub open spec fn path_in(dir: Seq<char>, name: Seq<char>) -> Seq<char> {
    if is_absolute(name) {
        name
    } else if dir.len() == 0 || dir.last() == '/' {
        dir + name
    } else {
        dir.push('/') + name
    }
}

/// Why a path was refused.
#[derive(Debug)]
pub enum PathError {
    /// The path does not start at the root directory.
    NotAbsolute(String),
    /// The path has a segment that is `.` or `..`.
    DotSegment(String),
    /// The path is relative and is not one bare name.
    NotBareName(String),
}

/// The model of a [`PathError`].
pub enum PathErrorView {
    NotAbsolute(Seq<char>),
    DotSegment(Seq<char>),
    NotBareName(Seq<char>),
}

impl View for PathError {
    type V = PathErrorView;

    open spec fn view(&self) -> PathErrorView {
        match self {
            PathError::NotAbsolute(path) => PathErrorView::NotAbsolute(path@),
            PathError::DotSegment(path) => PathErrorView::DotSegment(path@),
            PathError::NotBareName(path) => PathErrorView::NotBareName(path@),
        }
    }
}

/// What [`PathError::message`] says.
pub open spec fn path_error_message(error: PathErrorView) -> Seq<char> {
    match error {
        PathErrorView::NotAbsolute(path) => "Expected an absolute path, got '"@ + path + "'"@,
        PathErrorView::DotSegment(path) =>
            "Command paths must not contain '.' or '..' segments: "@ + path,
        PathErrorView::NotBareName(path) =>
            "Relative commands must be bare executable names, not paths: "@ + path,
    }
}

impl PathError {
    /// The message that reports the error.
    pub fn message(&self) -> (message: String)
        ensures
            message@ == path_error_message(self@),
    {
        match self {
            PathError::NotAbsolute(path) => {
                let mut message = "Expected an absolute path, got '".to_owned();
                message.append(path.as_str());
                message.append("'");
                message
            },
            PathError::DotSegment(path) => {
                let mut message =
                    "Command paths must not contain '.' or '..' segments: ".to_owned();
                message.append(path.as_str());
                message
            },
            PathError::NotBareName(path) => {
                let mut message =
                    "Relative commands must be bare executable names, not paths: ".to_owned();
                message.append(path.as_str());
                message
            },
        }
    }
}

/// The outcome of normalising `path`: an error for a path that is not absolute,
/// then for one with a dot segment, else the path with its segments alone.
pub open spec fn normalized(path: Seq<char>) -> Result<Seq<char>, PathErrorView> {
    if !is_absolute(path) {
        Err(PathErrorView::NotAbsolute(path))
    } else if has_dot_segment(path) {
        Err(PathErrorView::DotSegment(path))
    } else {
        Ok(rooted(segments(path)))
    }
}

/// The outcome of reading `path` as a bare name: a relative path of one segment
/// that is not a dot segment.
pub open spec fn bare_name(path: Seq<char>) -> Result<Seq<char>, PathErrorView> {
    if !is_absolute(path) && segments(path).len() == 1 && !has_dot_segment(path) {
        Ok(segments(path)[0])
    } else {
        Err(PathErrorView::NotBareName(path))
    }
}

/// Whether `path` starts at the root directory.
pub fn starts_at_root(path: &str) -> (absolute: bool)
    ensures
        absolute == is_absolute(path@),
{
    let chars = chars_of(path);
    chars.len() > 0 && chars[0] == '/'
}

/// The segments of `path`, and whether one of them is a dot segment.
fn split_path(path: &str) -> (split: (Vec<String>, bool))
    ensures
        texts(split.0@) == segments(path@),
        split.1 == has_dot_segment(path@),
{
    let pieces = split_text(path, '/');
    let ghost all = split_on(path@, '/');
    let ghost keep = |piece: Seq<char>| piece.len() > 0;
    let mut kept: Vec<String> = Vec::new();
    let mut dots = false;
    let mut i: usize = 0;
    while i < pieces.len()
        invariant
            i <= pieces@.len(),
            texts(pieces@) == all,
            keep == (|piece: Seq<char>| piece.len() > 0),
            texts(kept@) == all.take(i as int).filter(keep),
            dots == exists|j: int|
                0 <= j < kept@.len() && is_dot_segment(#[trigger] texts(kept@)[j]),
        decreases pieces@.len() - i,
    {
        proof {
            reveal(Seq::filter);
            assert(all.take(i + 1).drop_last() == all.take(i as int));
            assert(all[i as int] == pieces@[i as int]@);
        }
        let piece = pieces[i].as_str();
        if !piece.is_empty() {
            let ghost before = kept@;
            let ghost had = dots;
            let dot = same_text(piece, ".");
            let dots_two = same_text(piece, "..");
            proof {
                reveal_strlit(".");
                reveal_strlit("..");
                assert("."@ == seq!['.']);
                assert(".."@ == seq!['.', '.']);
            }
            if dot || dots_two {
                dots = true;
            }
            kept.push(piece.to_owned());
            proof {
                assert(texts(kept@) == texts(before).push(piece@));
                if had {
                    let j = choose|j: int|
                        0 <= j < before.len() && is_dot_segment(#[trigger] texts(before)[j]);
                    assert(texts(kept@)[j] == texts(before)[j]);
                }
                if dot || dots_two {
                    assert(is_dot_segment(texts(kept@)[before.len() as int]));
                }
                assert forall|j: int|
                    0 <= j < kept@.len() && is_dot_segment(#[trigger] texts(kept@)[j]) implies dots by {
                    if j < before.len() {
                        assert(texts(kept@)[j] == texts(before)[j]);
                    }
                }
            }
        }
        i = i + 1;
    }
    assert(all.take(all.len() as int) == all);
    assert(texts(kept@) == segments(path@));
    assert(texts(kept@).len() == kept@.len());
    (kept, dots)
}

/// Normalises an absolute path: slashes that say nothing are left out, and a path
/// with a `.` or `..` segment is refused.
pub fn normalize_absolute_path(path: &str) -> (result: Result<String, PathError>)
    ensures
        viewed(result) == normalized(path@),
{
    if !starts_at_root(path) {
        return Err(PathError::NotAbsolute(path.to_owned()));
    }
    let (parts, dots) = split_path(path);
    if dots {
        return Err(PathError::DotSegment(path.to_owned()));
    }
    let mut text = String::new();
    let mut i: usize = 0;
    while i < parts.len()
        invariant
            i <= parts@.len(),
            text@ == slashed(texts(parts@).take(i as int)),
        decreases parts@.len() - i,
    {
        assert(texts(parts@).take(i + 1).drop_last() == texts(parts@).take(i as int));
        text.push('/');
        text.append(parts[i].as_str());
        i = i + 1;
    }
    assert(texts(parts@).take(parts@.len() as int) == texts(parts@));
    if parts.len() == 0 {
        text.push('/');
        assert(text@ == seq!['/']);
    }
    Ok(text)
}

/// Reads a relative command as a bare executable name.
pub fn validate_relative_command(path: &str) -> (result: Result<String, PathError>)
    ensures
        viewed(result) == bare_name(path@),
{
    let (parts, dots) = split_path(path);
    if !starts_at_root(path) && parts.len() == 1 && !dots {
        assert(texts(parts@)[0] == parts@[0]@);
        Ok(parts[0].as_str().to_owned())
    } else {
        assert(texts(parts@).len() == parts@.len());
        Err(PathError::NotBareName(path.to_owned()))
    }
}

/// The path that `name` has inside the directory `dir`.
pub fn join_path(dir: &str, name: &str) -> (path: String)
    ensures
        path@ == path_in(dir@, name@),
{
    if starts_at_root(name) {
        return name.to_owned();
    }
    let mut path = dir.to_owned();
    let chars = chars_of(dir);
    if chars.len() > 0 && chars[chars.len() - 1] != '/' {
        path.push('/');
    }
    path.append(name);
    path
}

// ─── Laws ───────────────────────────────────────────────────────────────────

/// A segment behind a slash is one piece more.
proof fn lemma_split_behind_slash(head: Seq<char>, segment: Seq<char>)
    requires
        !segment.contains('/'),
    ensures
        split_on(head.push('/') + segment, '/') == split_on(head, '/').push(segment),
    decreases segment.len(),
{
    let whole = head.push('/') + segment;
    if segment.len() == 0 {
        assert(whole.drop_last() == head);
        assert(segment == Seq::<char>::empty());
    } else {
        let shorter = segment.drop_last();
        assert forall|k: int| 0 <= k < shorter.len() implies shorter[k] != '/' by {
            assert(segment[k] != '/') by {
                assert(segment.contains(segment[k]));
            }
        }
        lemma_split_behind_slash(head, shorter);
        assert(whole.drop_last() == head.push('/') + shorter);
        assert(segment.contains(segment.last()));
        assert(shorter.push(segment.last()) == segment);
        let before = split_on(head, '/').push(shorter);
        assert(before.drop_last() == split_on(head, '/'));
    }
}

/// A list of segments as a path has them: none is empty, none holds a slash.
pub open spec fn proper_segments(parts: Seq<Seq<char>>) -> bool {
    forall|i: int|
        0 <= i < parts.len() ==> (#[trigger] parts[i]).len() > 0 && !parts[i].contains('/')
}

proof fn lemma_split_slashed(parts: Seq<Seq<char>>)
    requires
        proper_segments(parts),
    ensures
        split_on(slashed(parts), '/') == seq![Seq::<char>::empty()] + parts,
    decreases parts.len(),
{
    if parts.len() > 0 {
        let shorter = parts.drop_last();
        assert forall|i: int| 0 <= i < shorter.len() implies (#[trigger] shorter[i]).len() > 0
            && !shorter[i].contains('/') by {
            assert(shorter[i] == parts[i]);
        }
        lemma_split_slashed(shorter);
        assert(parts[parts.len() - 1].len() > 0);
        lemma_split_behind_slash(slashed(shorter), parts.last());
        assert((seq![Seq::<char>::empty()] + shorter).push(parts.last()) == seq![
            Seq::<char>::empty(),
        ] + parts);
    } else {
        assert(seq![Seq::<char>::empty()] + parts == seq![Seq::<char>::empty()]);
    }
}

proof fn lemma_filter_keeps_all(parts: Seq<Seq<char>>)
    requires
        forall|i: int| 0 <= i < parts.len() ==> (#[trigger] parts[i]).len() > 0,
    ensures
        parts.filter(|piece: Seq<char>| piece.len() > 0) == parts,
        (seq![Seq::<char>::empty()] + parts).filter(|piece: Seq<char>| piece.len() > 0) == parts,
    decreases parts.len(),
{
    reveal(Seq::filter);
    let keep = |piece: Seq<char>| piece.len() > 0;
    let longer = seq![Seq::<char>::empty()] + parts;
    if parts.len() > 0 {
        let shorter = parts.drop_last();
        assert forall|i: int| 0 <= i < shorter.len() implies (#[trigger] shorter[i]).len() > 0 by {
            assert(shorter[i] == parts[i]);
        }
        lemma_filter_keeps_all(shorter);
        assert(longer.drop_last() == seq![Seq::<char>::empty()] + shorter);
        assert(parts[parts.len() - 1].len() > 0);
        assert(shorter.push(parts.last()) == parts);
    } else {
        assert(longer.drop_last() == Seq::<Seq<char>>::empty());
        assert(longer.drop_last().filter(keep) == Seq::<Seq<char>>::empty());
    }
}

/// The segments of a path are proper: none is empty, none holds a slash.
pub proof fn lemma_segments_proper(path: Seq<char>)
    ensures
        proper_segments(segments(path)),
{
    let pieces = split_on(path, '/');
    let keep = |piece: Seq<char>| piece.len() > 0;
    lemma_split_on(path, '/');
    assert forall|i: int| 0 <= i < segments(path).len() implies (#[trigger] segments(path)[i]).len()
        > 0 && !segments(path)[i].contains('/') by {
        pieces.lemma_filter_contains_rev(keep, segments(path)[i]);
    }
}

/// The path with given segments has just those segments.
pub proof fn lemma_segments_rooted(parts: Seq<Seq<char>>)
    requires
        proper_segments(parts),
    ensures
        is_absolute(rooted(parts)),
        segments(rooted(parts)) == parts,
{
    if parts.len() == 0 {
        reveal(Seq::filter);
        let root = seq!['/'];
        let keep = |piece: Seq<char>| piece.len() > 0;
        assert(root.drop_last() == Seq::<char>::empty());
        let pieces = split_on(root, '/');
        assert(split_on(Seq::<char>::empty(), '/') == seq![Seq::<char>::empty()]);
        assert(pieces == seq![Seq::<char>::empty()].push(Seq::<char>::empty()));
        assert(pieces.drop_last() == seq![Seq::<char>::empty()]);
        assert(pieces.drop_last().drop_last() == Seq::<Seq<char>>::empty());
        assert(pieces.drop_last().drop_last().filter(keep) == Seq::<Seq<char>>::empty());
        assert(pieces.drop_last().filter(keep) == Seq::<Seq<char>>::empty());
    } else {
        lemma_split_slashed(parts);
        lemma_filter_keeps_all(parts);
        lemma_slashed_starts(parts);
    }
}

proof fn lemma_slashed_starts(parts: Seq<Seq<char>>)
    requires
        parts.len() > 0,
    ensures
        is_absolute(slashed(parts)),
    decreases parts.len(),
{
    if parts.len() > 1 {
        lemma_slashed_starts(parts.drop_last());
    } else {
        assert(slashed(parts.drop_last()) == Seq::<char>::empty());
    }
}

/// What normalisation lets through is absolute, has the segments of the path that
/// was given and no dot segment among them, and is normalised already: to normalise
/// it again changes nothing.
pub proof fn law_normalized_is_final(path: Seq<char>)
    requires
        normalized(path) is Ok,
    ensures
        is_absolute(normalized(path)->Ok_0),
        segments(normalized(path)->Ok_0) == segments(path),
        !has_dot_segment(normalized(path)->Ok_0),
        normalized(normalized(path)->Ok_0) == normalized(path),
{
    lemma_segments_proper(path);
    lemma_segments_rooted(segments(path));
}

/// A text without the separator is one piece.
proof fn lemma_split_plain(text: Seq<char>)
    requires
        !text.contains('/'),
    ensures
        split_on(text, '/') == seq![text],
    decreases text.len(),
{
    if text.len() > 0 {
        let shorter = text.drop_last();
        assert forall|k: int| 0 <= k < shorter.len() implies shorter[k] != '/' by {
            assert(text.contains(text[k]));
        }
        lemma_split_plain(shorter);
        assert(text.contains(text.last()));
        assert(seq![shorter].drop_last() == Seq::<Seq<char>>::empty());
        assert(shorter.push(text.last()) == text);
        assert(split_on(text, '/') == seq![text]);
    } else {
        assert(text == Seq::<char>::empty());
    }
}

/// To filter keeps a last piece that is not empty, and drops one that is.
proof fn lemma_filter_push(pieces: Seq<Seq<char>>, last: Seq<char>)
    ensures
        pieces.push(last).filter(|piece: Seq<char>| piece.len() > 0) == (if last.len() > 0 {
            pieces.filter(|piece: Seq<char>| piece.len() > 0).push(last)
        } else {
            pieces.filter(|piece: Seq<char>| piece.len() > 0)
        }),
{
    reveal(Seq::filter);
    assert(pieces.push(last).drop_last() == pieces);
}

/// What the segments of a path are. The empty path has none; a slash at the end adds none;
/// and what stands behind a slash, or at the start, is one more segment.
pub proof fn law_segments(path: Seq<char>, segment: Seq<char>)
    requires
        segment.len() > 0,
        !segment.contains('/'),
    ensures
        segments(Seq::empty()).len() == 0,
        segments(path.push('/')) == segments(path),
        path.len() == 0 || path.last() == '/' ==> segments(path + segment) == segments(path).push(
            segment,
        ),
{
    let none = Seq::<char>::empty();
    reveal(Seq::filter);
    lemma_filter_push(Seq::empty(), none);
    assert(Seq::<Seq<char>>::empty().push(none) == seq![none]);
    assert(segments(none) == Seq::<Seq<char>>::empty());
    assert(path.push('/').drop_last() == path);
    lemma_filter_push(split_on(path, '/'), none);
    if path.len() == 0 {
        lemma_split_plain(segment);
        lemma_filter_push(Seq::empty(), segment);
        assert(Seq::<Seq<char>>::empty().push(segment) == seq![segment]);
        assert(path == none);
        assert(path + segment == segment);
    } else if path.last() == '/' {
        let head = path.drop_last();
        assert(path == head.push('/'));
        lemma_split_behind_slash(head, segment);
        lemma_filter_push(split_on(head, '/'), segment);
        lemma_filter_push(split_on(head, '/'), none);
        assert(split_on(path, '/') == split_on(head, '/').push(none));
    }
}

/// A path starts at the root directory just where its first character is a slash.
pub proof fn law_absolute_paths(path: Seq<char>)
    ensures
        is_absolute(path) <==> path.len() > 0 && path[0] == '/',
{
}

/// A path has a dot segment just where one of its segments is `.` or `..`.
pub proof fn law_dot_segments(path: Seq<char>)
    ensures
        has_dot_segment(path) <==> segments(path).contains("."@) || segments(path).contains(".."@),
{
    reveal_strlit(".");
    reveal_strlit("..");
    assert("."@ == seq!['.']);
    assert(".."@ == seq!['.', '.']);
    if has_dot_segment(path) {
        let i = choose|i: int|
            0 <= i < segments(path).len() && is_dot_segment(#[trigger] segments(path)[i]);
        assert(segments(path).contains(segments(path)[i]));
    }
    if segments(path).contains("."@) {
        let i = choose|i: int| 0 <= i < segments(path).len() && segments(path)[i] == "."@;
        assert(is_dot_segment(segments(path)[i]));
    }
    if segments(path).contains(".."@) {
        let i = choose|i: int| 0 <= i < segments(path).len() && segments(path)[i] == ".."@;
        assert(is_dot_segment(segments(path)[i]));
    }
}

/// Segments behind slashes have no two slashes in a row, and none at the end.
proof fn lemma_slashed_is_tight(parts: Seq<Seq<char>>)
    requires
        proper_segments(parts),
        parts.len() > 0,
    ensures
        slashed(parts).len() > 1,
        slashed(parts).last() != '/',
        forall|i: int|
            0 <= i < slashed(parts).len() - 1 && slashed(parts)[i] == '/'
                ==> #[trigger] slashed(parts)[i + 1] != '/',
    decreases parts.len(),
{
    let shorter = parts.drop_last();
    let head = slashed(shorter);
    let last = parts[parts.len() - 1];
    let whole = slashed(parts);
    assert(last.len() > 0 && !last.contains('/'));
    assert(whole == head.push('/') + last);
    assert forall|k: int| 0 <= k < last.len() implies last[k] != '/' by {
        assert(last.contains(last[k]));
    }
    if shorter.len() > 0 {
        assert forall|i: int| 0 <= i < shorter.len() implies (#[trigger] shorter[i]).len() > 0
            && !shorter[i].contains('/') by {
            assert(shorter[i] == parts[i]);
        }
        lemma_slashed_is_tight(shorter);
    }
    assert forall|i: int| 0 <= i < whole.len() - 1 && whole[i] == '/' implies #[trigger] whole[i
        + 1] != '/' by {
        if i + 1 > head.len() {
            assert(whole[i + 1] == last[i - head.len()]);
        } else if i + 1 == head.len() {
            assert(whole[i] == head.last());
        } else {
            assert(whole[i] == head[i]);
            assert(whole[i + 1] == head[i + 1]);
        }
    }
}

/// What normalisation does. A path is refused just where it does not start with a slash, or
/// has a `.` or `..` among its segments; else it keeps its segments, all of them and in their
/// order, and loses every slash that says nothing: no two stand in a row, and none at the end,
/// but for the root directory itself.
pub proof fn law_normalization(path: Seq<char>)
    ensures
        path.len() == 0 || path[0] != '/' ==> normalized(path) == Err::<Seq<char>, PathErrorView>(
            PathErrorView::NotAbsolute(path),
        ),
        path.len() > 0 && path[0] == '/' && (segments(path).contains("."@) || segments(
            path,
        ).contains(".."@)) ==> normalized(path) == Err::<Seq<char>, PathErrorView>(
            PathErrorView::DotSegment(path),
        ),
        path.len() > 0 && path[0] == '/' && !segments(path).contains("."@) && !segments(
            path,
        ).contains(".."@) ==> {
            &&& normalized(path) is Ok
            &&& normalized(path)->Ok_0[0] == '/'
            &&& segments(normalized(path)->Ok_0) == segments(path)
            &&& normalized(path)->Ok_0.len() == 1 || normalized(path)->Ok_0.last() != '/'
            &&& forall|i: int|
                0 <= i < normalized(path)->Ok_0.len() - 1 && normalized(path)->Ok_0[i] == '/'
                    ==> #[trigger] normalized(path)->Ok_0[i + 1] != '/'
        },
{
    law_dot_segments(path);
    lemma_segments_proper(path);
    lemma_segments_rooted(segments(path));
    if segments(path).len() > 0 {
        lemma_slashed_is_tight(segments(path));
    }
}

/// A bare name is a relative path with one segment that is neither `.` nor `..`; every other
/// path is refused, and a name without a slash stands for itself.
pub proof fn law_bare_names(path: Seq<char>, name: Seq<char>)
    ensures
        bare_name(path) == Ok::<Seq<char>, PathErrorView>(name) <==> {
            &&& path.len() == 0 || path[0] != '/'
            &&& segments(path) == seq![name]
            &&& name != "."@
            &&& name != ".."@
        },
        bare_name(path) is Err ==> bare_name(path)->Err_0 == PathErrorView::NotBareName(path),
        name.len() > 0 && !name.contains('/') && name != "."@ && name != ".."@ ==> bare_name(name)
            == Ok::<Seq<char>, PathErrorView>(name),
{
    law_dot_segments(path);
    law_dot_segments(name);
    if segments(path).len() == 1 {
        assert(segments(path) == seq![segments(path)[0]]);
        assert(segments(path).contains(segments(path)[0]));
    }
    if name.len() > 0 && !name.contains('/') {
        law_segments(Seq::empty(), name);
        assert(Seq::<char>::empty() + name == name);
        assert(segments(Seq::<char>::empty()) == Seq::<Seq<char>>::empty());
        assert(segments(name) == seq![name]);
        assert(name.contains(name[0]));
    }
}

/// A relative name in a directory is the directory, a slash, and the name; the slash is not
/// doubled. An absolute name stands for itself.
pub proof fn law_names_in_directories(dir: Seq<char>, name: Seq<char>)
    ensures
        name.len() > 0 && name[0] == '/' ==> path_in(dir, name) == name,
        (name.len() == 0 || name[0] != '/') && dir.len() > 0 && dir.last() != '/' ==> path_in(
            dir,
            name,
        ) == dir + seq!['/'] + name,
        (name.len() == 0 || name[0] != '/') && (dir.len() == 0 || dir.last() == '/') ==> path_in(
            dir,
            name,
        ) == dir + name,
{
    assert(dir.push('/') + name == dir + seq!['/'] + name);
}

/// Each refusal of a path is reported in its own words, with the path.
pub proof fn law_path_messages(path: Seq<char>)
    ensures
        path_error_message(PathErrorView::NotAbsolute(path)) == "Expected an absolute path, got '"@
            + path + "'"@,
        path_error_message(PathErrorView::DotSegment(path))
            == "Command paths must not contain '.' or '..' segments: "@ + path,
        path_error_message(PathErrorView::NotBareName(path))
            == "Relative commands must be bare executable names, not paths: "@ + path,
{
}

} // verus!
