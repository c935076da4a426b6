//! Finding the notebook that a name stands for.
use vstd::prelude::*;

use crate::path::{file_stem, file_stem_of, law_file_stem_is_one_part, law_stem_of_joined_file};
use crate::remote::{metadata_path_of, REMOTE_XOCHITL};
use crate::task::{Failure, FailureView};
use crate::text::{is_space, lemma_until, lines, lines_of, texts, trim, trim_of, trim_start_of, without_cr};
use crate::text_laws::{is_blank, law_line_feed_ends_a_line, law_trim_leaves_a_part};

verus! {

/// Whether a line holds more than white space.
pub open spec fn is_filled(line: Seq<char>) -> bool {
    trim_of(line).len() > 0
}

/// The lines of `listing` that hold more than white space.
pub open spec fn filled_lines_of(listing: Seq<char>) -> Seq<Seq<char>> {
    lines_of(listing).filter(|line: Seq<char>| is_filled(line))
}

/// The notebook that a listing of metadata files stands for: the stem of the one path in it. It is
/// a failure where there is no path or more than one, and where the path has no file name.
pub open spec fn listed_notebook(notebook: Seq<char>, listing: Seq<char>) -> Result<
    Seq<char>,
    FailureView,
> {
    let found = filled_lines_of(listing);
    if found.len() == 0 {
        Err(FailureView::NoNotebook(notebook))
    } else if found.len() == 1 {
        match file_stem_of(found[0]) {
            Some(uuid) => Ok(uuid),
            None => Err(FailureView::UnexpectedMetadataPath(found[0])),
        }
    } else {
        Err(FailureView::ManyNotebooks(notebook, found.len()))
    }
}

/// The lines of `listing` that hold more than white space.
pub fn filled_lines(listing: &str) -> (r: Vec<String>)
    ensures
        texts(r@) == filled_lines_of(listing@),
{
    let all = lines(listing);
    let mut out: Vec<String> = Vec::new();
    let mut i: usize = 0;
    let ghost given = texts(all@);
    let ghost filled = |line: Seq<char>| is_filled(line);
    proof {
        reveal(Seq::filter);
        assert(texts(out@) =~= given.take(0).filter(filled));
    }
    while i < all.len()
        invariant
            i <= all.len(),
            given == texts(all@),
            filled == (|line: Seq<char>| is_filled(line)),
            texts(out@) == given.take(i as int).filter(filled),
        decreases all.len() - i,
    {
        let ghost before = texts(out@);
        proof {
            reveal(Seq::filter);
            assert(given.take(i + 1).drop_last() =~= given.take(i as int));
            assert(given.take(i + 1).last() == all@[i as int]@);
        }
        let line = &all[i];
        if !trim(line).is_empty() {
            out.push(line.clone());
            assert(texts(out@) =~= before.push(line@));
        }
        i += 1;
    }
    assert(given.take(i as int) =~= given);
    out
}

/// The notebook that a listing of metadata files stands for.
pub fn notebook_from_listing(notebook: &str, listing: &str) -> (r: Result<String, Failure>)
    ensures
        match r {
            Ok(uuid) => listed_notebook(notebook@, listing@) == Ok::<Seq<char>, FailureView>(uuid@),
            Err(failure) => listed_notebook(notebook@, listing@) == Err::<Seq<char>, FailureView>(
                failure@,
            ),
        },
{
    let found = filled_lines(listing);
    assert(texts(found@).len() == found@.len());
    if found.len() == 0 {
        Err(Failure::NoNotebook(notebook.to_owned()))
    } else if found.len() == 1 {
        let path = &found[0];
        assert(texts(found@)[0] == path@);
        match file_stem(path) {
            Some(uuid) => Ok(uuid),
            None => Err(Failure::UnexpectedMetadataPath(path.clone())),
        }
    } else {
        Err(Failure::ManyNotebooks(notebook.to_owned(), found.len()))
    }
}

/// The path of a notebook's metadata file, alone on a line, stands for that notebook.
pub proof fn law_metadata_path_stands_for_its_notebook(notebook: Seq<char>, uuid: Seq<char>)
    requires
        uuid.len() > 0,
        !uuid.contains('/'),
        !uuid.contains('\n'),
    ensures
        listed_notebook(notebook, metadata_path_of(uuid).push('\n')) == Ok::<Seq<char>, FailureView>(
            uuid,
        ),
{
    reveal_strlit("/home/root/.local/share/remarkable/xochitl");
    reveal_strlit("/");
    reveal_strlit(".metadata");
    let store = REMOTE_XOCHITL@;
    let path = metadata_path_of(uuid);
    let extension = seq!['m', 'e', 't', 'a', 'd', 'a', 't', 'a'];
    assert(path =~= store.push('/') + uuid.push('.') + extension);
    law_stem_of_joined_file(store, uuid, extension);
    let listing = path.push('\n');
    assert forall|k: int| 0 <= k < path.len() implies listing[k] != '\n' by {
        if k < store.len() {
            assert(path[k] == store[k]);
        } else if k == store.len() {
            assert(path[k] == '/');
        } else if k < store.len() + 1 + uuid.len() {
            assert(path[k] == uuid[k - store.len() - 1]);
            assert(uuid.contains(path[k]));
        } else {
            assert(path[k] == ".metadata"@[k - store.len() - 1 - uuid.len()]);
        }
    }
    lemma_until(listing, '\n', path.len());
    assert(listing.take(path.len() as int) =~= path);
    assert(path.last() == 'a');
    assert(path[0] == '/');
    assert(without_cr(path) == path);
    let rest = listing.skip(path.len() as int + 1);
    assert(rest =~= Seq::<char>::empty());
    assert(lines_of(rest) =~= Seq::<Seq<char>>::empty());
    assert(lines_of(listing) =~= seq![path]);
    assert(trim_start_of(path) == path);
    assert(trim_of(path) == path);
    let filled = |line: Seq<char>| is_filled(line);
    reveal(Seq::filter);
    assert(seq![path].drop_last() =~= Seq::<Seq<char>>::empty());
    assert(seq![path].drop_last().filter(filled) =~= Seq::<Seq<char>>::empty());
    assert(seq![path].last() == path);
    assert(filled_lines_of(listing) =~= seq![path]);
}

/// The notebook that a listing stands for has a name that is one part of a path.
pub proof fn law_listed_notebook_is_one_part(notebook: Seq<char>, listing: Seq<char>)
    ensures
        listed_notebook(notebook, listing) matches Ok(uuid) ==> uuid.len() > 0 && !uuid.contains(
            '/',
        ),
{
    law_file_stem_is_one_part(filled_lines_of(listing)[0]);
}

/// The text of some lines, each with a line feed behind it.
pub open spec fn listing_of(paths: Seq<Seq<char>>) -> Seq<char>
    decreases paths.len(),
{
    if paths.len() == 0 {
        Seq::empty()
    } else {
        paths[0].push('\n') + listing_of(paths.skip(1))
    }
}

/// Whether `path` is a line by itself that holds more than white space.
pub open spec fn is_listed_path(path: Seq<char>) -> bool {
    !path.contains('\n') && path.len() > 0 && path.last() != '\r' && !is_blank(path)
}

proof fn lemma_filled(line: Seq<char>)
    ensures
        is_filled(line) == !is_blank(line),
{
    let (a, b) = law_trim_leaves_a_part(line);
    if is_blank(line) {
        if a < b {
            assert(is_space(line[a]));
            assert(line.subrange(a, b)[0] == line[a]);
        }
    } else if a == b {
        assert forall|i: int| 0 <= i < line.len() implies is_space(#[trigger] line[i]) by {
            if i < a {
                assert(line.take(a)[i] == line[i]);
            } else {
                assert(line.skip(b)[i - b] == line[i]);
            }
        }
    }
}

proof fn lemma_filled_lines_of_first(line: Seq<char>, rest: Seq<char>)
    requires
        !line.contains('\n'),
        line.len() == 0 || line.last() != '\r',
    ensures
        filled_lines_of(line.push('\n') + rest) == if is_blank(line) {
            filled_lines_of(rest)
        } else {
            seq![line] + filled_lines_of(rest)
        },
{
    let filled = |line: Seq<char>| is_filled(line);
    law_line_feed_ends_a_line(line, rest);
    lemma_filled(line);
    Seq::filter_distributes_over_add(seq![line], lines_of(rest), filled);
    reveal(Seq::filter);
    assert(seq![line].drop_last() =~= Seq::<Seq<char>>::empty());
    assert(seq![line].drop_last().filter(filled) =~= Seq::<Seq<char>>::empty());
    assert(seq![line].last() == line);
    if is_blank(line) {
        assert(seq![line].filter(filled) =~= Seq::<Seq<char>>::empty());
        assert(Seq::<Seq<char>>::empty() + filled_lines_of(rest) =~= filled_lines_of(rest));
    } else {
        assert(seq![line].filter(filled) =~= seq![line]);
    }
}

/// A line of white space in a listing does not count.
pub proof fn law_blank_line_does_not_count(
    notebook: Seq<char>,
    blank: Seq<char>,
    listing: Seq<char>,
)
    requires
        is_blank(blank),
        !blank.contains('\n'),
        blank.len() == 0 || blank.last() != '\r',
    ensures
        listed_notebook(notebook, blank.push('\n') + listing) == listed_notebook(notebook, listing),
{
    lemma_filled_lines_of_first(blank, listing);
}

proof fn lemma_listed_paths(paths: Seq<Seq<char>>)
    requires
        forall|i: int| 0 <= i < paths.len() ==> is_listed_path(#[trigger] paths[i]),
    ensures
        filled_lines_of(listing_of(paths)) == paths,
    decreases paths.len(),
{
    if paths.len() == 0 {
        let filled = |line: Seq<char>| is_filled(line);
        reveal(Seq::filter);
        assert(lines_of(Seq::empty()) =~= Seq::<Seq<char>>::empty());
        assert(filled_lines_of(listing_of(paths)) =~= paths);
    } else {
        let rest = paths.skip(1);
        assert forall|i: int| 0 <= i < rest.len() implies is_listed_path(#[trigger] rest[i]) by {
            assert(rest[i] == paths[i + 1]);
        }
        lemma_listed_paths(rest);
        assert(is_listed_path(paths[0]));
        lemma_filled_lines_of_first(paths[0], listing_of(rest));
        assert(seq![paths[0]] + rest =~= paths);
    }
}

/// One listed path stands for the notebook that is its stem. Where no path is listed, or more than
/// one, or the one has no file name, it is a failure that says so.
pub proof fn law_one_path_is_needed(notebook: Seq<char>, paths: Seq<Seq<char>>)
    requires
        forall|i: int| 0 <= i < paths.len() ==> is_listed_path(#[trigger] paths[i]),
    ensures
        ({
            let found = listed_notebook(notebook, listing_of(paths));
            &&& paths.len() == 0 ==> found == Err::<Seq<char>, FailureView>(
                FailureView::NoNotebook(notebook),
            )
            &&& paths.len() > 1 ==> found == Err::<Seq<char>, FailureView>(
                FailureView::ManyNotebooks(notebook, paths.len()),
            )
            &&& paths.len() == 1 ==> match file_stem_of(paths[0]) {
                Some(uuid) => found == Ok::<Seq<char>, FailureView>(uuid),
                None => found == Err::<Seq<char>, FailureView>(
                    FailureView::UnexpectedMetadataPath(paths[0]),
                ),
            }
        }),
{
    lemma_listed_paths(paths);
}

/// A listing is taken line by line, without the lines of white space. One line that is left gives
/// its stem, and anything else is a failure.
pub proof fn law_listing_is_taken_line_by_line(notebook: Seq<char>, listing: Seq<char>)
    ensures
        filled_lines_of(listing) == lines_of(listing).filter(|line: Seq<char>| !is_blank(line)),
        ({
            let left = filled_lines_of(listing);
            let found = listed_notebook(notebook, listing);
            &&& left.len() == 0 ==> found == Err::<Seq<char>, FailureView>(
                FailureView::NoNotebook(notebook),
            )
            &&& left.len() > 1 ==> found == Err::<Seq<char>, FailureView>(
                FailureView::ManyNotebooks(notebook, left.len()),
            )
            &&& left.len() == 1 ==> match file_stem_of(left[0]) {
                Some(uuid) => found == Ok::<Seq<char>, FailureView>(uuid),
                None => found == Err::<Seq<char>, FailureView>(
                    FailureView::UnexpectedMetadataPath(left[0]),
                ),
            }
        }),
{
    let filled = |line: Seq<char>| is_filled(line);
    let written = |line: Seq<char>| !is_blank(line);
    assert forall|line: Seq<char>| #[trigger] filled(line) == written(line) by {
        lemma_filled(line);
    }
    assert(filled =~= written);
}

} // verus!
