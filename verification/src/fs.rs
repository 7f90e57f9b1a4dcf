//! Listings of directories and components of paths.
use vstd::prelude::*;
use crate::platform::Platform;
use crate::error::Error;
use crate::path::{join, last_component, parent, spec_join, spec_last_component, spec_parent};
use crate::text::{chars_of, extend_chars, strings_view, string_from_chars};

verus! {

/// The entries of the directories that could be read, in order.
pub open spec fn flattened(listings: Seq<Option<Seq<Seq<char>>>>) -> Seq<Seq<char>>
    decreases listings.len(),
{
    if listings.len() == 0 {
        Seq::empty()
    } else {
        flattened(listings.drop_last()) + match listings.last() {
            Some(entries) => entries,
            None => Seq::empty(),
        }
    }
}

/// The view of the directory listings: nothing for a directory that could not be read.
pub open spec fn listings_view(l: Seq<Option<Vec<String>>>) -> Seq<Option<Seq<Seq<char>>>> {
    l.map_values(|o: Option<Vec<String>>| match o {
        Some(v) => Some(strings_view(v@)),
        None => None,
    })
}

/// The paths of the entries of directories, given each directory's listing
/// (nothing for one that could not be read), in order.
pub fn flatten_directories(listings: &Vec<Option<Vec<String>>>) -> (r: Vec<String>)
    ensures
        strings_view(r@) == flattened(listings_view(listings@)),
{
    let ghost lv = listings_view(listings@);
    let mut out: Vec<String> = Vec::new();
    let mut i: usize = 0;
    while i < listings.len()
        invariant
            lv == listings_view(listings@),
            i <= listings@.len(),
            strings_view(out@) == flattened(lv.take(i as int)),
        decreases listings@.len() - i,
    {
        proof {
            assert(lv.take(i + 1).drop_last() =~= lv.take(i as int));
        }
        match &listings[i] {
            Some(entries) => {
                let ghost before = strings_view(out@);
                let mut j: usize = 0;
                while j < entries.len()
                    invariant
                        j <= entries@.len(),
                        strings_view(out@) == before + strings_view(entries@).take(j as int),
                    decreases entries@.len() - j,
                {
                    let ghost prev = strings_view(out@);
                    let e = entries[j].clone();
                    assert(e@ == entries@[j as int]@);
                    out.push(e);
                    assert(strings_view(out@) =~= prev.push(entries@[j as int]@));
                    assert(strings_view(entries@).take(j + 1) =~= strings_view(entries@).take(j as int).push(entries@[j as int]@));
                    j = j + 1;
                    assert(strings_view(out@) =~= before + strings_view(entries@).take(j as int));
                }
                assert(strings_view(entries@).take(entries@.len() as int) =~= strings_view(entries@));
            },
            None => {
                assert(strings_view(out@) =~= flattened(lv.take(i as int)) + Seq::<Seq<char>>::empty());
            },
        }
        i = i + 1;
    }
    assert(lv.take(listings@.len() as int) =~= lv);
    out
}

/// The message of a path that has no component.
pub open spec fn unparsable_path_message(path: Seq<char>) -> Seq<char> {
    "failed to parse path "@ + path
}

/// The text of the last component of a path, or an error when it has none.
pub fn last_path_component(path: &str, platform: Platform) -> (r: Result<String, Error>)
    ensures
        match spec_last_component(platform, path@) {
            Some(c) => r matches Ok(s) && s@ == c,
            None => r matches Err(Error::InternalError(m)) && m@ == unparsable_path_message(path@),
        },
{
    match last_component(platform, path) {
        Some(c) => Ok(c),
        None => {
            let mut msg = chars_of("failed to parse path ");
            let p = chars_of(path);
            extend_chars(&mut msg, p.as_slice());
            Err(Error::InternalError(string_from_chars(msg.as_slice())))
        },
    }
}

/// What a search for a file does after looking in one directory.
#[derive(Clone, Debug)]
pub enum SearchStep {
    /// The file is at this path.
    Found(String),
    /// The search ends without finding the file.
    NotFound,
    /// The search goes on in this directory.
    Continue(String),
}

/// The message of a search that cannot go up from a directory.
pub open spec fn no_parent_directory_message() -> Seq<char> {
    "failed to establish a parent directory"@
}

/// Where the file is, when `dir` or one of its subdirectories holds it:
/// `dir` first, then `child`, the first subdirectory that holds it.
fn found_at(file_name: &str, dir: &str, in_dir: bool, child: Option<&str>, platform: Platform) -> (r: Option<String>)
    ensures
        in_dir ==> (r matches Some(p) && p@ == spec_join(platform, dir@, file_name@)),
        !in_dir && child is Some ==> (r matches Some(p) && p@ == spec_join(platform, child.unwrap()@, file_name@)),
        !in_dir && child is None ==> r is None,
{
    if in_dir {
        Some(join(platform, dir, file_name))
    } else {
        match child {
            Some(c) => Some(join(platform, c, file_name)),
            None => None,
        }
    }
}

/// One step of the search for `file_name` that starts in a directory and
/// walks up to a last one, given what was seen in `dir`: whether it exists,
/// whether it holds the file, the first of its subdirectories that holds the
/// file, and whether `dir` is the last directory.  A missing directory ends
/// the search; the file in `dir`, else in that subdirectory, is found; at the
/// last directory the search ends; else it goes on in the parent, and a
/// directory without a parent is an error.
pub fn bottom_up_step(file_name: &str, dir: &str, dir_exists: bool, in_dir: bool, child: Option<&str>, at_last: bool, platform: Platform) -> (r: Result<SearchStep, Error>)
    ensures
        !dir_exists ==> r matches Ok(SearchStep::NotFound),
        dir_exists && in_dir ==> (r matches Ok(SearchStep::Found(p)) && p@ == spec_join(platform, dir@, file_name@)),
        dir_exists && !in_dir && child is Some ==> (r matches Ok(SearchStep::Found(p)) && p@ == spec_join(platform, child.unwrap()@, file_name@)),
        dir_exists && !in_dir && child is None && at_last ==> r matches Ok(SearchStep::NotFound),
        dir_exists && !in_dir && child is None && !at_last ==> match spec_parent(platform, dir@) {
            Some(q) => r matches Ok(SearchStep::Continue(d)) && d@ == q,
            None => r matches Err(Error::InternalError(m)) && m@ == no_parent_directory_message(),
        },
{
    if !dir_exists {
        return Ok(SearchStep::NotFound);
    }
    match found_at(file_name, dir, in_dir, child, platform) {
        Some(p) => Ok(SearchStep::Found(p)),
        None => {
            if at_last {
                Ok(SearchStep::NotFound)
            } else {
                match parent(platform, dir) {
                    Some(q) => Ok(SearchStep::Continue(q)),
                    None => Err(Error::InternalError("failed to establish a parent directory".to_string())),
                }
            }
        },
    }
}

/// One step of the search for `file_name` that starts in a directory and
/// walks up at most `limit` directories, given what was seen in `dir`: whether
/// it exists, whether it holds the file and the first of its subdirectories
/// that holds the file.  A missing directory or a spent limit ends the
/// search; the file in `dir`, else in that subdirectory, is found; else the
/// search goes on in the parent with one step less, and a directory without a
/// parent means that no environment was found.
pub fn limited_search_step(file_name: &str, dir: &str, dir_exists: bool, limit: usize, in_dir: bool, child: Option<&str>, platform: Platform) -> (r: Result<(SearchStep, usize), Error>)
    ensures
        !dir_exists || limit == 0 ==> r matches Ok((SearchStep::NotFound, _)),
        dir_exists && limit > 0 && in_dir ==> (r matches Ok((SearchStep::Found(p), _)) && p@ == spec_join(platform, dir@, file_name@)),
        dir_exists && limit > 0 && !in_dir && child is Some ==> (r matches Ok((SearchStep::Found(p), _)) && p@ == spec_join(platform, child.unwrap()@, file_name@)),
        dir_exists && limit > 0 && !in_dir && child is None ==> match spec_parent(platform, dir@) {
            Some(q) => r matches Ok((SearchStep::Continue(d), n)) && d@ == q && n == limit - 1,
            None => r matches Err(Error::PyVenvNotFoundError),
        },
{
    if !dir_exists || limit == 0 {
        return Ok((SearchStep::NotFound, limit));
    }
    match found_at(file_name, dir, in_dir, child, platform) {
        Some(p) => Ok((SearchStep::Found(p), limit)),
        None => match parent(platform, dir) {
            Some(q) => Ok((SearchStep::Continue(q), limit - 1)),
            None => Err(Error::PyVenvNotFoundError),
        },
    }
}

} // verus!
