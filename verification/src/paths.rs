//! File-system paths, held as strings, and the names of the files that belong
//! to a tag. What a path means is left to the standard library, which reads
//! it by the rules of the platform the crate is built for.

use vstd::prelude::*;
use crate::tag::{is_app_tag, is_valid_app_tag};
use crate::text::{ascii_lower, ascii_lowercase, chars_of, string_of, to_ascii_lower};

verus! {

/// The extension, dot included, of a tag's configuration file.
pub const CONFIG_SUFFIX: &'static str = ".toml";

/// What is put behind the name of a configuration file that is set aside.
pub const BACKUP_SUFFIX: &'static str = ".bak";

/// What `Path::join` gives for a directory and a name, as text: for a plain
/// file name the directory, a separator where one is needed, and the name.
pub uninterp spec fn joined_path(dir: Seq<char>, name: Seq<char>) -> Seq<char>;

/// Whether `Path::is_absolute` holds of a path.
pub uninterp spec fn is_absolute_path(path: Seq<char>) -> bool;

/// What `Path::file_stem` gives for a path, as text: the name of the file
/// without its extension, where the path names a file.
pub uninterp spec fn file_stem_of(path: Seq<char>) -> Option<Seq<char>>;

/// `std::path::Path::file_stem`: the last component of the path without
/// its extension; `None` where the path ends in no file name. The path is
/// valid UTF-8, so the stem is.
#[verifier::external_body]
pub(crate) fn path_file_stem(path: &str) -> (r: Option<String>)
    ensures
        match r {
            Some(stem) => file_stem_of(path@) == Some(stem@),
            None => file_stem_of(path@) is None,
        },
{
    std::path::Path::new(path).file_stem().and_then(|stem| stem.to_str()).map(
        |stem| stem.to_string(),
    )
}

/// `std::path::Path::join`: `name` resolved against `dir` by the platform's
/// rules. Both are valid UTF-8, so is the result, and nothing is lost in
/// turning it back into a string.
#[verifier::external_body]
pub(crate) fn path_join(dir: &str, name: &str) -> (r: String)
    ensures
        r@ == joined_path(dir@, name@),
{
    std::path::Path::new(dir).join(name).to_string_lossy().into_owned()
}

/// `std::path::Path::is_absolute`: the path fixes a location whatever the
/// current directory is.
#[verifier::external_body]
pub(crate) fn path_is_absolute(path: &str) -> (r: bool)
    ensures
        r == is_absolute_path(path@),
{
    std::path::Path::new(path).is_absolute()
}

/// The ending of a name as it is compared with a suffix: as it stands, or
/// with its ASCII letters in lower case where case does not count.
pub open spec fn folded(ending: Seq<char>, any_case: bool) -> Seq<char> {
    if any_case {
        ascii_lowercase(ending)
    } else {
        ending
    }
}

/// What stands before the suffix in a name that ends in it; `None` for a
/// name that does not end in the suffix. Where case does not count the
/// suffix is given in lower case and found in any case.
pub open spec fn stem_of(name: Seq<char>, suffix: Seq<char>, any_case: bool) -> Option<Seq<char>> {
    let cut = name.len() - suffix.len();
    if suffix.len() <= name.len() && folded(name.subrange(cut, name.len() as int), any_case)
        == suffix {
        Some(name.subrange(0, cut))
    } else {
        None
    }
}

/// The tag that a file name stands for under a suffix: the name is the tag
/// followed by the suffix. `None` for every other name.
pub open spec fn file_tag(name: Seq<char>, suffix: Seq<char>, any_case: bool) -> Option<Seq<char>> {
    match stem_of(name, suffix, any_case) {
        Some(stem) if is_app_tag(stem) => Some(stem),
        _ => None,
    }
}

/// What stands before the suffix in a name: see [`stem_of`].
pub fn stem_of_file_name(name: &str, suffix: &str, any_case: bool) -> (r: Option<String>)
    ensures
        match r {
            Some(stem) => stem_of(name@, suffix@, any_case) == Some(stem@),
            None => stem_of(name@, suffix@, any_case) is None,
        },
{
    let n = chars_of(name);
    let x = chars_of(suffix);
    if x.len() > n.len() {
        return None;
    }
    let cut: usize = n.len() - x.len();
    let mut i: usize = 0;
    while i < x.len()
        invariant
            n@ == name@,
            x@ == suffix@,
            cut + x.len() == n.len(),
            i <= x.len(),
            forall|j: int|
                0 <= j < i ==> (if any_case {
                    ascii_lower(n@[cut + j])
                } else {
                    n@[cut + j]
                }) == x@[j],
        decreases x.len() - i,
    {
        let c = if any_case { to_ascii_lower(n[cut + i]) } else { n[cut + i] };
        if c != x[i] {
            proof {
                let tail = n@.subrange(cut as int, n.len() as int);
                assert(tail[i as int] == n@[cut + i]);
                assert(ascii_lowercase(tail)[i as int] == ascii_lower(tail[i as int]));
            }
            return None;
        }
        i = i + 1;
    }
    let mut stem: Vec<char> = Vec::new();
    let mut k: usize = 0;
    while k < cut
        invariant
            k <= cut,
            cut <= n.len(),
            stem@ == n@.subrange(0, k as int),
        decreases cut - k,
    {
        stem.push(n[k]);
        assert(n@.subrange(0, k as int).push(n@[k as int]) =~= n@.subrange(0, k + 1));
        k = k + 1;
    }
    proof {
        let tail = n@.subrange(cut as int, n.len() as int);
        assert(folded(tail, any_case) =~= x@);
    }
    Some(string_of(&stem))
}

/// The tag that `name` stands for under `suffix`: see [`file_tag`].
pub fn tag_of_file_name(name: &str, suffix: &str, any_case: bool) -> (r: Option<String>)
    ensures
        match r {
            Some(tag) => file_tag(name@, suffix@, any_case) == Some(tag@),
            None => file_tag(name@, suffix@, any_case) is None,
        },
{
    match stem_of_file_name(name, suffix, any_case) {
        Some(stem) => if is_valid_app_tag(stem.as_str()) {
            Some(stem)
        } else {
            None
        },
        None => None,
    }
}

/// A tag stands for itself under its own file name, and for nothing else:
/// the name of a tag's file gives the tag back.
pub proof fn lemma_file_tag_of_tag(tag: Seq<char>, suffix: Seq<char>, any_case: bool)
    requires
        is_app_tag(tag),
        folded(suffix, any_case) == suffix,
    ensures
        file_tag(tag + suffix, suffix, any_case) == Some(tag),
{
    let name = tag + suffix;
    assert(name.subrange(0, name.len() - suffix.len()) =~= tag);
    assert(name.subrange(tag.len() as int, name.len() as int) =~= suffix);
}

} // verus!
