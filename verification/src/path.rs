//! Paths as text.
//!
//! A path is read as components separated by `/`. Its file name is the last
//! component that is neither empty nor `.`, unless that component is `..`.
//! The extension is what follows the last `.` of the file name, wherever in
//! the name that `.` stands.

use crate::text::{chars_of, lemma_last_occurrence, lemma_no_occurrence, position_before};
use vstd::prelude::*;
use vstd::string::StringExecFns;

verus! {

/// The part of `path` behind its last `/`, and all of `path` if it has none.
pub open spec fn last_segment(path: Seq<char>) -> Seq<char> {
    match path.index_of_last('/') {
        Some(i) => path.skip(i + 1),
        None => path,
    }
}

/// The file name of `path`, if it has one.
///
/// Trailing `/` and trailing `.` components are passed over; what then stands
/// last is the file name, except that `..` is none.
pub open spec fn file_name_of(path: Seq<char>) -> Option<Seq<char>>
    decreases path.len(),
{
    if path.len() == 0 {
        None
    } else if path.last() == '/' || last_segment(path) == seq!['.'] {
        file_name_of(path.drop_last())
    } else if last_segment(path) == seq!['.', '.'] {
        None
    } else {
        Some(last_segment(path))
    }
}

/// The extension of the file name `name`: what follows its last `.`, if it
/// has one.
pub open spec fn extension_of_name(name: Seq<char>) -> Option<Seq<char>> {
    match name.index_of_last('.') {
        Some(i) => Some(name.skip(i + 1)),
        None => None,
    }
}

/// The extension of the file that `path` names, if it has one.
pub open spec fn extension_of(path: Seq<char>) -> Option<Seq<char>> {
    match file_name_of(path) {
        Some(name) => extension_of_name(name),
        None => None,
    }
}

/// The path to `name` from inside the directory `dir`: `name` itself if it
/// begins with `/`, else `dir` and `name` with one `/` between them, unless
/// `dir` is empty or ends with `/` already.
pub open spec fn joined(dir: Seq<char>, name: Seq<char>) -> Seq<char> {
    if name.len() > 0 && name[0] == '/' {
        name
    } else if dir.len() == 0 || dir.last() == '/' {
        dir + name
    } else {
        dir + seq!['/'] + name
    }
}

/// Whether `name` is one component that names a file: not empty, without
/// `/`, and neither `.` nor `..`.
pub open spec fn is_plain_name(name: Seq<char>) -> bool {
    &&& name.len() > 0
    &&& !name.contains('/')
    &&& name != seq!['.']
    &&& name != seq!['.', '.']
}

/// Where the last segment of the first `end` characters begins.
fn segment_start(chars: &Vec<char>, end: usize) -> (start: usize)
    requires
        end <= chars.len(),
    ensures
        start <= end,
        start > 0 ==> chars[start - 1] == '/',
        last_segment(chars@.take(end as int)) == chars@.subrange(start as int, end as int),
{
    let ghost head = chars@.take(end as int);
    match position_before(chars, end, '/') {
        Some(i) => {
            proof {
                lemma_last_occurrence(head, '/', i as int);
            }
            i + 1
        },
        None => {
            proof {
                lemma_no_occurrence(head, '/');
            }
            0
        },
    }
}

/// The positions between which the file name of `chars` stands.
fn file_name_range(chars: &Vec<char>) -> (range: Option<(usize, usize)>)
    ensures
        match range {
            Some((start, end)) => start <= end <= chars.len() && file_name_of(chars@) == Some(
                chars@.subrange(start as int, end as int),
            ),
            None => file_name_of(chars@) is None,
        },
{
    let mut end: usize = chars.len();
    assert(chars@.take(end as int) =~= chars@);
    while end > 0
        invariant
            end <= chars.len(),
            file_name_of(chars@) == file_name_of(chars@.take(end as int)),
        decreases end,
    {
        assert(chars@.take(end as int).drop_last() =~= chars@.take(end - 1));
        if chars[end - 1] != '/' {
            let start: usize = segment_start(chars, end);
            let dots: bool = chars[start] == '.' && (end - start == 1 || (end - start == 2
                && chars[start + 1] == '.'));
            let ghost segment = chars@.subrange(start as int, end as int);
            if !dots {
                assert(segment != seq!['.'] && segment != seq!['.', '.']) by {
                    if segment == seq!['.'] || segment == seq!['.', '.'] {
                        assert(segment[0] == '.');
                        assert(segment.len() == 1 || segment[1] == '.');
                    }
                }
                return Some((start, end));
            }
            if end - start == 2 {
                assert(segment =~= seq!['.', '.']);
                return None;
            }
            assert(segment =~= seq!['.']);
        }
        end -= 1;
    }
    None
}

/// The positions between which the extension of `chars` stands.
fn extension_range(chars: &Vec<char>) -> (range: Option<(usize, usize)>)
    ensures
        match range {
            Some((start, end)) => start <= end <= chars.len() && extension_of(chars@) == Some(
                chars@.subrange(start as int, end as int),
            ),
            None => extension_of(chars@) is None,
        },
{
    match file_name_range(chars) {
        Some((start, end)) => {
            let ghost name = chars@.subrange(start as int, end as int);
            match position_before(chars, end, '.') {
                Some(dot) => {
                    if dot >= start {
                        proof {
                            lemma_last_occurrence(name, '.', dot - start);
                            assert(name.skip(dot - start + 1) =~= chars@.subrange(
                                dot + 1,
                                end as int,
                            ));
                        }
                        Some((dot + 1, end))
                    } else {
                        proof {
                            lemma_no_occurrence(name, '.');
                        }
                        None
                    }
                },
                None => {
                    proof {
                        lemma_no_occurrence(name, '.');
                    }
                    None
                },
            }
        },
        None => None,
    }
}

/// The file name of `path`, if it has one.
pub fn file_name<'a>(path: &'a str) -> (name: Option<&'a str>)
    ensures
        match name {
            Some(n) => file_name_of(path@) == Some(n@),
            None => file_name_of(path@) is None,
        },
{
    let chars = chars_of(path);
    match file_name_range(&chars) {
        Some((start, end)) => Some(path.substring_char(start, end)),
        None => None,
    }
}

/// The extension of the file that `path` names, if it has one.
pub fn extension<'a>(path: &'a str) -> (ext: Option<&'a str>)
    ensures
        match ext {
            Some(e) => extension_of(path@) == Some(e@),
            None => extension_of(path@) is None,
        },
{
    let chars = chars_of(path);
    match extension_range(&chars) {
        Some((start, end)) => Some(path.substring_char(start, end)),
        None => None,
    }
}

/// The path to `name` from inside the directory `dir`.
pub fn join(dir: &str, name: &str) -> (path: String)
    ensures
        path@ == joined(dir@, name@),
{
    if !name.is_empty() && name.get_char(0) == '/' {
        return String::from_str(name);
    }
    let chars = chars_of(dir);
    let mut path = String::from_str(dir);
    if chars.len() > 0 && chars[chars.len() - 1] != '/' {
        proof {
            reveal_strlit("/");
        }
        path.append("/");
    }
    path.append(name);
    path
}

/// A file name is one component: not empty, without `/`, and neither `.` nor
/// `..`. It stands in the path between the two positions that are returned:
/// at the path's beginning or behind a `/`, and in front of nothing but `/`
/// and `.`.
pub proof fn lemma_file_name_is_plain(path: Seq<char>) -> (at: (int, int))
    ensures
        file_name_of(path) matches Some(name) ==> {
            &&& is_plain_name(name)
            &&& 0 <= at.0 < at.1 <= path.len()
            &&& path.subrange(at.0, at.1) == name
            &&& at.0 > 0 ==> path[at.0 - 1] == '/'
            &&& forall|i: int| at.1 <= i < path.len() ==> path[i] == '/' || path[i] == '.'
        },
    decreases path.len(),
{
    if path.len() == 0 {
        (0, 0)
    } else if path.last() == '/' || last_segment(path) == seq!['.'] {
        let head = path.drop_last();
        let at = lemma_file_name_is_plain(head);
        if file_name_of(head) is Some {
            if last_segment(path) == seq!['.'] {
                lemma_last_segment_is_tail(path);
                assert(path.subrange(path.len() - 1, path.len() as int)[0] == '.');
            }
            assert forall|i: int| at.1 <= i < path.len() implies path[i] == '/' || path[i]
                == '.' by {
                if i < head.len() {
                    assert(path[i] == head[i]);
                }
            }
        }
        at
    } else if last_segment(path) == seq!['.', '.'] {
        (0, 0)
    } else {
        lemma_last_segment_is_tail(path);
        let start: int = path.len() - last_segment(path).len();
        (start, path.len() as int)
    }
}

/// The last segment of a path holds no `/`, the path ends with it, and
/// nothing but the path's beginning or a `/` stands in front of it.
pub proof fn lemma_last_segment_is_tail(path: Seq<char>)
    ensures
        !last_segment(path).contains('/'),
        last_segment(path).is_suffix_of(path),
        last_segment(path).len() < path.len() ==> path[path.len() - last_segment(path).len() - 1]
            == '/',
        path.len() > 0 && path.last() != '/' ==> last_segment(path).len() > 0,
{
    path.index_of_last_ensures('/');
}

/// An extension holds neither `.` nor `/`, and stands at the end of the
/// file name behind a `.`.
pub proof fn lemma_extension_is_tail(path: Seq<char>)
    ensures
        extension_of(path) matches Some(ext) ==> {
            &&& !ext.contains('.')
            &&& !ext.contains('/')
            &&& file_name_of(path) matches Some(name) && (seq!['.'] + ext).is_suffix_of(name)
        },
{
    if let Some(name) = file_name_of(path) {
        lemma_file_name_is_plain(path);
        name.index_of_last_ensures('.');
    }
}

/// A plain name is the file name of every path that joins it to a
/// directory, and gives that path its extension.
pub proof fn lemma_file_name_of_joined(dir: Seq<char>, name: Seq<char>)
    requires
        is_plain_name(name),
    ensures
        file_name_of(joined(dir, name)) == Some(name),
        extension_of(joined(dir, name)) == extension_of_name(name),
{
    let path = joined(dir, name);
    assert(last_segment(path) == name) by {
        if dir.len() == 0 {
            lemma_no_occurrence(path, '/');
        } else {
            let slash: int = path.len() - name.len() - 1;
            lemma_last_occurrence(path, '/', slash);
        }
    }
}

/// Behind any stem, `.` and an extension that is not empty and holds
/// neither `.` nor `/` make a path with that extension.
pub proof fn lemma_extension_of_suffixed(stem: Seq<char>, ext: Seq<char>)
    requires
        ext.len() > 0,
        !ext.contains('.'),
        !ext.contains('/'),
    ensures
        extension_of(stem + seq!['.'] + ext) == Some(ext),
{
    let path = stem + seq!['.'] + ext;
    let base = last_segment(stem);
    let name = base + seq!['.'] + ext;
    assert(last_segment(path) == name) by {
        stem.index_of_last_ensures('/');
        match stem.index_of_last('/') {
            Some(i) => {
                lemma_last_occurrence(path, '/', i);
                assert(path.skip(i + 1) =~= name);
            },
            None => {
                lemma_no_occurrence(path, '/');
                assert(path =~= name);
            },
        }
    }
    assert(path.last() == ext.last());
    assert(name.last() == ext.last());
    lemma_last_occurrence(name, '.', base.len() as int);
    assert(name.skip(base.len() as int + 1) =~= ext);
}

} // verus!
