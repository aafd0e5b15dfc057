//! Local thumbnails for remote profile images.
use vstd::prelude::*;

verus! {

/// The shape of a profile-image URL: scheme, host, `profile_images`, a
/// numeric id, then a base name that ends in `_normal` with an optional
/// extension.
pub const PROFILE_IMAGE_PATTERN: &'static str =
    "^https?://([^/]+)/profile_images/(\\d+)/(.*)_normal(\\.[a-zA-Z0-9-]+)?$";

/// What the regex crate captures when `pattern` is matched against `text`:
/// `None` where the pattern does not compile or finds no match, else one
/// entry per capture group, the whole match first, with `None` for a group
/// that took no part in the match.
pub uninterp spec fn regex_groups(pattern: Seq<char>, text: Seq<char>) -> Option<
    Seq<Option<Seq<char>>>,
>;

/// Calls `Regex::new` on `pattern` and `Regex::captures` on `text`, and
/// copies out the text of each group. The contract gives the outcome a name
/// and claims nothing else of it: it depends on the two arguments alone.
#[verifier::external_body]
fn capture_groups(pattern: &str, text: &str) -> (groups: Option<Vec<Option<String>>>)
    ensures
        groups.deep_view() == regex_groups(pattern@, text@),
{
    let regex = regex::Regex::new(pattern).ok()?;
    let captures = regex.captures(text)?;
    Some(captures.iter().map(|group| group.map(|found| found.as_str().to_string())).collect())
}

/// The groups of a profile-image URL that name its thumbnail: the whole
/// match, the host, the id, the base name and the extension.
pub open spec fn names_thumbnail(groups: Seq<Option<Seq<char>>>) -> bool {
    groups.len() == 5 && groups[2] is Some && groups[3] is Some
}

/// The path of the thumbnail that the captured groups name, relative to the
/// base directory: `./thumbnails/<id>-<name>_400x400<extension>`, with no
/// extension where the URL had none.
pub open spec fn candidate_of(groups: Option<Seq<Option<Seq<char>>>>) -> Option<Seq<char>> {
    match groups {
        Some(g) => if names_thumbnail(g) {
            Some(
                "./thumbnails/"@ + g[2]->0 + "-"@ + g[3]->0 + "_400x400"@ + match g[4] {
                    Some(extension) => extension,
                    None => Seq::empty(),
                },
            )
        } else {
            None
        },
        None => None,
    }
}

/// The thumbnail path that a URL names, if it has the profile-image shape.
pub open spec fn candidate_text(url: Seq<char>) -> Option<Seq<char>> {
    candidate_of(regex_groups(PROFILE_IMAGE_PATTERN@, url))
}

/// The image source for a URL, given the thumbnail paths found on disk: the
/// thumbnail path where the URL names one and it was found, else the URL.
pub open spec fn source_text(url: Seq<char>, present: Seq<Seq<char>>) -> Seq<char> {
    match candidate_text(url) {
        Some(path) => if present.contains(path) {
            path
        } else {
            url
        },
        None => url,
    }
}

/// The image source is settled by the URL and by which paths were found,
/// in whatever order and however often they are listed: asked twice about
/// the same URL with the same paths on disk, the answer is the same. A URL
/// that names no thumbnail is its own source whatever was found.
pub proof fn lemma_source_is_settled(url: Seq<char>, present: Seq<Seq<char>>, again: Seq<Seq<char>>)
    requires
        forall|path: Seq<char>| present.contains(path) <==> again.contains(path),
    ensures
        source_text(url, present) == source_text(url, again),
        candidate_text(url) is None ==> source_text(url, present) == url,
{
}

/// Builds the thumbnail path from captured groups.
pub fn candidate_from_groups(groups: &Option<Vec<Option<String>>>) -> (path: Option<String>)
    ensures
        path.deep_view() == candidate_of(groups.deep_view()),
{
    match groups {
        Some(g) => {
            if g.len() != 5 {
                return None;
            }
            match (&g[2], &g[3]) {
                (Some(id), Some(name)) => {
                    let mut path = String::from_str("./thumbnails/");
                    path.append(id.as_str());
                    path.append("-");
                    path.append(name.as_str());
                    path.append("_400x400");
                    if let Some(extension) = &g[4] {
                        path.append(extension.as_str());
                    }
                    Some(path)
                },
                _ => None,
            }
        },
        None => None,
    }
}

/// The thumbnail path that `url` names, relative to the base directory, or
/// `None` where the URL does not have the profile-image shape.
pub fn thumbnail_candidate(url: &str) -> (path: Option<String>)
    ensures
        path.deep_view() == candidate_text(url@),
{
    let groups = capture_groups(PROFILE_IMAGE_PATTERN, url);
    candidate_from_groups(&groups)
}

/// Whether `path` is among `present`.
pub fn is_present(path: &String, present: &Vec<String>) -> (found: bool)
    ensures
        found == present.deep_view().contains(path@),
{
    let mut i: usize = 0;
    while i < present.len()
        invariant
            i <= present.len(),
            forall|j: int| 0 <= j < i ==> present.deep_view()[j] != path@,
        decreases present.len() - i,
    {
        assert(present.deep_view()[i as int] == present@[i as int]@);
        if present[i] == *path {
            return true;
        }
        i = i + 1;
    }
    false
}

/// The `src` of the thumbnail image for `profile_image_url`: the local
/// thumbnail path where the URL names one that is among `present`, the paths
/// found under the base directory; else the URL itself.
pub fn make_profile_image_thumbnail_url(profile_image_url: &str, present: &Vec<String>) -> (source:
    String)
    ensures
        source@ == source_text(profile_image_url@, present.deep_view()),
        candidate_text(profile_image_url@) is None ==> source@ == profile_image_url@,
{
    match thumbnail_candidate(profile_image_url) {
        Some(path) => {
            if is_present(&path, present) {
                path
            } else {
                String::from_str(profile_image_url)
            }
        },
        None => String::from_str(profile_image_url),
    }
}

} // verus!
