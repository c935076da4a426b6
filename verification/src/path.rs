//! Paths with `/` between their parts, as on Unix and on the tablet.
use vstd::prelude::*;
use vstd::string::*;

use crate::text::to_chars;

verus! {

/// Whether `path` starts at the root.
pub open spec fn is_absolute(path: Seq<char>) -> bool {
    path.len() > 0 && path[0] == '/'
}

/// `part` taken relative to `base`: an absolute part stands alone, and a separator comes between
/// the two unless `base` is empty or ends with one.
pub open spec fn joined(base: Seq<char>, part: Seq<char>) -> Seq<char> {
    if is_absolute(part) {
        part
    } else if base.len() == 0 || base.last() == '/' {
        base + part
    } else {
        base.push('/') + part
    }
}

/// Takes `part` relative to `base`.
pub fn join_path(base: &str, part: &str) -> (r: String)
    ensures
        r@ == joined(base@, part@),
{
    let bs = to_chars(base);
    let ps = to_chars(part);
    if ps.len() > 0 && ps[0] == '/' {
        return part.to_owned();
    }
    let mut out = base.to_owned();
    if bs.len() > 0 && bs[bs.len() - 1] != '/' {
        out.push('/');
    }
    out.append(part);
    out
}

/// Joining parts one at a time gives the same path as joining them to each other first.
pub proof fn law_join_is_associative(a: Seq<char>, b: Seq<char>, c: Seq<char>)
    ensures
        joined(joined(a, b), c) == joined(a, joined(b, c)),
{
    assert(joined(joined(a, b), c) =~= joined(a, joined(b, c)));
}

/// Where the last `c` stands in `s`; -1 where there is none.
pub open spec fn last_index(s: Seq<char>, c: char) -> int
    decreases s.len(),
{
    if s.len() == 0 {
        -1
    } else if s.last() == c {
        s.len() - 1
    } else {
        last_index(s.drop_last(), c)
    }
}

pub(crate) proof fn lemma_last_index(s: Seq<char>, c: char, at: int)
    requires
        -1 <= at < s.len(),
        at >= 0 ==> s[at] == c,
        forall|k: int| at < k < s.len() ==> s[k] != c,
    ensures
        last_index(s, c) == at,
    decreases s.len(),
{
    if s.len() > 0 && at < s.len() - 1 {
        assert(s[s.len() - 1] != c);
        lemma_last_index(s.drop_last(), c, at);
    }
}

/// The last index lies inside the text.
pub proof fn lemma_last_index_bound(s: Seq<char>, c: char)
    ensures
        -1 <= last_index(s, c) < s.len(),
    decreases s.len(),
{
    if s.len() > 0 && s.last() != c {
        lemma_last_index_bound(s.drop_last(), c);
    }
}

/// The last part of `path`, with empty parts and `.` passed over. There is none where nothing else
/// is left, or where that part is `..`.
pub open spec fn file_name_of(path: Seq<char>) -> Option<Seq<char>>
    decreases path.len(),
{
    let slash = last_index(path, '/');
    let part = path.skip(slash + 1);
    if part.len() > 0 && part != seq!['.'] {
        if part == seq!['.', '.'] {
            None
        } else {
            Some(part)
        }
    } else if slash < 0 {
        None
    } else {
        proof {
            lemma_last_index_bound(path, '/');
        }
        file_name_of(path.take(slash))
    }
}

/// `name` up to its last dot; all of it where it has no dot but perhaps at its start.
pub open spec fn stem_of(name: Seq<char>) -> Seq<char> {
    let dot = last_index(name, '.');
    if dot <= 0 {
        name
    } else {
        name.take(dot)
    }
}

/// The file name at the end of `path`, without its extension.
pub open spec fn file_stem_of(path: Seq<char>) -> Option<Seq<char>> {
    match file_name_of(path) {
        Some(name) => Some(stem_of(name)),
        None => None,
    }
}

/// Where the last `c` stands among the first `end` characters.
fn find_last(cs: &Vec<char>, end: usize, c: char) -> (r: Option<usize>)
    requires
        end <= cs@.len(),
    ensures
        match r {
            Some(at) => at < end && last_index(cs@.take(end as int), c) == at,
            None => last_index(cs@.take(end as int), c) == -1,
        },
{
    let mut k: usize = end;
    while k > 0
        invariant
            k <= end <= cs@.len(),
            forall|j: int| k <= j < end ==> cs@[j] != c,
        decreases k,
    {
        if cs[k - 1] == c {
            proof {
                lemma_last_index(cs@.take(end as int), c, k - 1);
            }
            return Some(k - 1);
        }
        k -= 1;
    }
    proof {
        lemma_last_index(cs@.take(end as int), c, -1);
    }
    None
}

/// The file name at the end of `path`.
pub fn file_name(path: &str) -> (r: Option<String>)
    ensures
        match r {
            Some(name) => file_name_of(path@) == Some(name@),
            None => file_name_of(path@) is None,
        },
{
    let cs = to_chars(path);
    let mut end: usize = cs.len();
    assert(path@.take(end as int) =~= path@);
    loop
        invariant
            cs@ == path@,
            end <= cs.len(),
            file_name_of(path@) == file_name_of(path@.take(end as int)),
        decreases end,
    {
        let ghost left = path@.take(end as int);
        let slash = find_last(&cs, end, '/');
        let start: usize = match slash {
            Some(at) => at + 1,
            None => 0,
        };
        let ghost part = left.skip(last_index(left, '/') + 1);
        assert(part =~= path@.subrange(start as int, end as int));
        let len: usize = end - start;
        assert(len > 0 ==> part[0] == path@[start as int]);
        assert(len > 1 ==> part[1] == path@[start + 1]);
        let dot = len == 1 && cs[start] == '.';
        let dots = len == 2 && cs[start] == '.' && cs[start + 1] == '.';
        assert(dot == (part == seq!['.'])) by {
            if dot {
                assert(part =~= seq!['.']);
            }
        }
        assert(dots == (part == seq!['.', '.'])) by {
            if dots {
                assert(part =~= seq!['.', '.']);
            }
        }
        if len > 0 && !dot {
            if dots {
                return None;
            }
            return Some(path.substring_char(start, end).to_owned());
        }
        match slash {
            Some(at) => {
                assert(left.take(at as int) =~= path@.take(at as int));
                end = at;
            },
            None => {
                return None;
            },
        }
    }
}

/// The file name at the end of `path`, without its extension.
pub fn file_stem(path: &str) -> (r: Option<String>)
    ensures
        match r {
            Some(stem) => file_stem_of(path@) == Some(stem@),
            None => file_stem_of(path@) is None,
        },
{
    match file_name(path) {
        Some(name) => {
            let cs = to_chars(&name);
            assert(name@.take(cs.len() as int) =~= name@);
            match find_last(&cs, cs.len(), '.') {
                Some(at) => if at > 0 {
                    assert(name@.subrange(0, at as int) =~= name@.take(at as int));
                    Some(name.as_str().substring_char(0, at).to_owned())
                } else {
                    Some(name)
                },
                None => Some(name),
            }
        },
        None => None,
    }
}

/// The stem of a file that lies in a directory under `name` with `extension` behind its last dot
/// is `name`.
pub proof fn law_stem_of_joined_file(dir: Seq<char>, name: Seq<char>, extension: Seq<char>)
    requires
        name.len() > 0,
        !name.contains('/'),
        extension.len() > 0,
        !extension.contains('/'),
        !extension.contains('.'),
    ensures
        file_stem_of(dir.push('/') + name.push('.') + extension) == Some(name),
{
    let file = name.push('.') + extension;
    let path = dir.push('/') + name.push('.') + extension;
    assert forall|k: int| 0 <= k < extension.len() implies extension[k] != '.' && extension[k]
        != '/' by {
        assert(extension.contains(extension[k]));
    }
    assert forall|k: int| 0 <= k < name.len() implies name[k] != '/' by {
        assert(name.contains(name[k]));
    }
    let d = dir.len() as int;
    assert(path[d] == '/');
    assert forall|k: int| d < k < path.len() implies path[k] != '/' by {
        if k - d - 1 < name.len() {
            assert(path[k] == name[k - d - 1]);
        } else if k - d - 1 > name.len() {
            assert(path[k] == extension[k - d - 2 - name.len()]);
        }
    }
    lemma_last_index(path, '/', d);
    assert(path.skip(d + 1) =~= file);
    assert(file.last() == extension.last());
    assert(file != seq!['.'] && file != seq!['.', '.']) by {
        assert(extension.last() != '.');
    }
    lemma_last_index(file, '.', name.len() as int);
    assert(file.take(name.len() as int) =~= name);
}

proof fn lemma_after_last_index(s: Seq<char>, c: char)
    ensures
        !s.skip(last_index(s, c) + 1).contains(c),
    decreases s.len(),
{
    lemma_last_index_bound(s, c);
    let at = last_index(s, c);
    let rest = s.skip(at + 1);
    if s.len() > 0 && s.last() != c {
        let shorter = s.drop_last();
        lemma_after_last_index(shorter, c);
        lemma_last_index_bound(shorter, c);
        assert forall|k: int| 0 <= k < rest.len() implies rest[k] != c by {
            if k < rest.len() - 1 {
                assert(rest[k] == shorter.skip(at + 1)[k]);
                assert(shorter.skip(at + 1).contains(shorter.skip(at + 1)[k]));
            } else {
                assert(rest[k] == s.last());
            }
        }
    }
}

/// The file name at the end of a path is one part of it, and its stem is not empty.
pub proof fn law_file_stem_is_one_part(path: Seq<char>)
    ensures
        file_name_of(path) matches Some(name) ==> name.len() > 0 && !name.contains('/'),
        file_stem_of(path) matches Some(stem) ==> stem.len() > 0 && !stem.contains('/'),
    decreases path.len(),
{
    let slash = last_index(path, '/');
    lemma_last_index_bound(path, '/');
    lemma_after_last_index(path, '/');
    let part = path.skip(slash + 1);
    if part.len() > 0 && part != seq!['.'] {
        lemma_last_index_bound(part, '.');
        let stem = stem_of(part);
        if stem.contains('/') {
            let k = choose|k: int| 0 <= k < stem.len() && stem[k] == '/';
            assert(part[k] == '/');
            assert(part.contains('/'));
        }
    } else if slash >= 0 {
        law_file_stem_is_one_part(path.take(slash));
    }
}

/// Whether `path` is a file right inside the directory `dir`.
pub open spec fn lies_in(path: Seq<char>, dir: Seq<char>) -> bool {
    exists|name: Seq<char>|
        name.len() > 0 && !name.contains('/') && path == #[trigger] (dir.push('/') + name)
}

/// A file lies right inside one directory only.
pub proof fn law_file_lies_in_one_directory(path: Seq<char>, a: Seq<char>, b: Seq<char>)
    requires
        lies_in(path, a),
        lies_in(path, b),
    ensures
        a == b,
{
    let x = choose|x: Seq<char>|
        x.len() > 0 && !x.contains('/') && path == #[trigger] (a.push('/') + x);
    let y = choose|y: Seq<char>|
        y.len() > 0 && !y.contains('/') && path == #[trigger] (b.push('/') + y);
    assert(path == a.push('/') + x);
    assert(path == b.push('/') + y);
    assert(path.len() == a.len() + 1 + x.len());
    assert(path.len() == b.len() + 1 + y.len());
    if a.len() < b.len() {
        assert((b.push('/') + y)[b.len() as int] == '/');
        assert((a.push('/') + x)[b.len() as int] == x[b.len() - a.len() - 1]);
        assert(x.contains('/'));
    }
    if b.len() < a.len() {
        assert((a.push('/') + x)[a.len() as int] == '/');
        assert((b.push('/') + y)[a.len() as int] == y[a.len() - b.len() - 1]);
        assert(y.contains('/'));
    }
    assert(a =~= path.take(a.len() as int));
    assert(b =~= path.take(b.len() as int));
}

/// A path that is joined starts with its base and ends with its part, and between the two stands
/// one separator, unless the base ends with one or is empty. An absolute part stands alone.
pub proof fn law_joined_path_keeps_both(base: Seq<char>, part: Seq<char>)
    ensures
        part.len() > 0 && part[0] == '/' ==> joined(base, part) == part,
        part.len() == 0 || part[0] != '/' ==> {
            let path = joined(base, part);
            let whole = base.len() == 0 || base.last() == '/';
            &&& base.is_prefix_of(path)
            &&& part.is_suffix_of(path)
            &&& whole ==> path.len() == base.len() + part.len()
            &&& !whole ==> path.len() == base.len() + 1 + part.len() && path[base.len() as int]
                == '/'
        },
{
}

/// The file name of a path is its last part.
pub proof fn law_file_name_is_the_last_part(dir: Seq<char>, name: Seq<char>)
    requires
        name.len() > 0,
        !name.contains('/'),
    ensures
        name != seq!['.'] && name != seq!['.', '.'] ==> file_name_of(name) == Some(name)
            && file_name_of(dir.push('/') + name) == Some(name),
        name == seq!['.', '.'] ==> file_name_of(name) is None && file_name_of(
            dir.push('/') + name,
        ) is None,
        name == seq!['.'] ==> file_name_of(name) is None && file_name_of(dir.push('/') + name)
            == file_name_of(dir),
{
    let path = dir.push('/') + name;
    assert forall|k: int| 0 <= k < name.len() implies name[k] != '/' by {
        assert(name.contains(name[k]));
    }
    assert forall|k: int| dir.len() < k < path.len() implies path[k] != '/' by {
        assert(path[k] == name[k - dir.len() - 1]);
    }
    lemma_last_index(path, '/', dir.len() as int);
    lemma_last_index(name, '/', -1);
    assert(path.skip(dir.len() as int + 1) =~= name);
    assert(name.skip(0) =~= name);
    assert(path.take(dir.len() as int) =~= dir);
    assert(seq!['.'].len() == 1 && seq!['.', '.'].len() == 2);
}

/// Separators at the end of a path change nothing, and an empty path has no file name.
pub proof fn law_file_name_passes_over_separators(path: Seq<char>)
    ensures
        file_name_of(path.push('/')) == file_name_of(path),
        file_name_of(Seq::empty()) is None,
{
    let longer = path.push('/');
    lemma_last_index(longer, '/', path.len() as int);
    assert(longer.skip(path.len() as int + 1) =~= Seq::empty());
    assert(longer.take(path.len() as int) =~= path);
    lemma_last_index(Seq::empty(), '/', -1);
    assert(Seq::<char>::empty().skip(0) =~= Seq::empty());
}

/// The stem of a name ends before its last dot, unless that dot is the first character.
pub proof fn law_stem_ends_before_the_last_dot(name: Seq<char>, extension: Seq<char>)
    requires
        !extension.contains('.'),
    ensures
        name.len() > 0 ==> stem_of(name.push('.') + extension) == name,
        stem_of(seq!['.'] + extension) == seq!['.'] + extension,
        stem_of(extension) == extension,
{
    let file = name.push('.') + extension;
    assert forall|k: int| 0 <= k < extension.len() implies extension[k] != '.' by {
        assert(extension.contains(extension[k]));
    }
    assert forall|k: int| name.len() < k < file.len() implies file[k] != '.' by {
        assert(file[k] == extension[k - name.len() - 1]);
    }
    lemma_last_index(file, '.', name.len() as int);
    assert(file.take(name.len() as int) =~= name);
    let hidden = seq!['.'] + extension;
    assert forall|k: int| 0 < k < hidden.len() implies hidden[k] != '.' by {
        assert(hidden[k] == extension[k - 1]);
    }
    lemma_last_index(hidden, '.', 0);
    lemma_last_index(extension, '.', -1);
}

} // verus!
