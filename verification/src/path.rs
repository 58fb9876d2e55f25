//! File-name parts of paths, as `std::path::Path` splits them.

use vstd::prelude::*;

verus! {

/// The final component of a path, as `Path::file_name` returns it (`None`
/// when the path ends in `..` or has no final component).
pub uninterp spec fn path_file_name(path: Seq<char>) -> Option<Seq<char>>;

/// Index of the last `.` of a name, if any.
pub open spec fn last_dot(name: Seq<char>) -> Option<nat>
    decreases name.len(),
{
    if name.len() == 0 {
        None
    } else if name.last() == '.' {
        Some((name.len() - 1) as nat)
    } else {
        last_dot(name.drop_last())
    }
}

/// The extension of a file name: what follows its last `.`, unless the
/// name has no `.` or its only `.` is the first character.
pub open spec fn name_extension(name: Seq<char>) -> Option<Seq<char>> {
    match last_dot(name) {
        Some(i) => if i == 0 { None } else { Some(name.skip((i + 1) as int)) },
        None => None,
    }
}

/// The extension of the final component of a path, as `Path::extension`
/// describes it.
pub open spec fn path_extension(path: Seq<char>) -> Option<Seq<char>> {
    match path_file_name(path) {
        Some(name) => name_extension(name),
        None => None,
    }
}

/// The final component of `path` (`Path::file_name`, converted to a string).
#[verifier::external_body]
pub(crate) fn file_name_of(path: &str) -> (r: Option<String>)
    ensures
        match r {
            Some(s) => path_file_name(path@) == Some(s@),
            None => path_file_name(path@) is None,
        },
{
    std::path::Path::new(path).file_name().map(|n| n.to_string_lossy().into_owned())
}

/// The extension of `path`, as `Path::extension` describes it: the part of
/// its final component after the last `.`; none when there is no final
/// component, no `.`, or only a `.` that begins the name.
pub(crate) fn extension_of(path: &str) -> (r: Option<String>)
    ensures
        match r {
            Some(s) => match path_file_name(path@) {
                Some(name) => name_extension(name) == Some(s@),
                None => false,
            },
            None => match path_file_name(path@) {
                Some(name) => name_extension(name) is None,
                None => true,
            },
        },
{
    let name = match file_name_of(path) {
        Some(n) => n,
        None => return None,
    };
    let v = crate::text::chars_of(name.as_str());
    let mut k: usize = v.len();
    assert(v@.take(k as int) =~= v@);
    while k > 0 && v[k - 1] != '.'
        invariant
            k <= v@.len(),
            last_dot(v@) == last_dot(v@.take(k as int)),
        decreases k,
    {
        assert(v@.take(k - 1) =~= v@.take(k as int).drop_last());
        k = k - 1;
    }
    if k == 0 {
        assert(v@.take(0) =~= Seq::<char>::empty());
        return None;
    }
    assert(last_dot(v@.take(k as int)) == Some((k - 1) as nat));
    if k == 1 {
        None
    } else {
        Some(crate::text::string_from_chars(&v, k, v.len()))
    }
}

/// The parent of a path, as `Path::parent` returns it (`None` for a root
/// or an empty path).
pub uninterp spec fn path_parent(path: Seq<char>) -> Option<Seq<char>>;

/// The parent of `path` (`Path::parent`, converted to a string).
#[verifier::external_body]
pub(crate) fn parent_of(path: &str) -> (r: Option<String>)
    ensures
        match r {
            Some(s) => path_parent(path@) == Some(s@),
            None => path_parent(path@) is None,
        },
{
    std::path::Path::new(path).parent().map(|p| p.to_string_lossy().into_owned())
}

} // verus!
