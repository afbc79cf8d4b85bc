use std::str::FromStr;
use vstd::prelude::*;

verus! {

/// The manifest of a modpack archive (its JSON description).
#[derive(Default, Debug, Clone, PartialEq)]
pub struct ManifestJson {
    pub manifest_type: String,
    pub version: String,
    pub files: Vec<FileJson>,
    pub manifest_version: i64,
    pub name: String,
    pub overrides: String,
    pub author: String,
    pub minecraft: MinecraftJson,
}

/// One mod file that a manifest lists.
#[derive(Default, Debug, Clone, PartialEq)]
pub struct FileJson {
    pub project_id: i64,
    pub file_id: i64,
    pub download_url: String,
    pub required: bool,
}

/// The game version and mod loaders that a manifest asks for.
#[derive(Default, Debug, Clone, PartialEq)]
pub struct MinecraftJson {
    pub version: String,
    pub mod_loaders: Vec<ModLoaderJson>,
}

/// One mod loader of a manifest.
#[derive(Default, Debug, Clone, PartialEq)]
pub struct ModLoaderJson {
    pub id: String,
    pub primary: bool,
}

/// What parsing a text as a URL with `reqwest::Url` gives, as the
/// serialization of the URL, or `None` when the text is no URL.
pub uninterp spec fn parsed_url(input: Seq<char>) -> Option<Seq<char>>;

/// Parses a URL through `reqwest::Url::from_str` and gives its serialization
/// (`as_str`). Claimed: success and result are functions of the text, and a
/// text that parses starts with an ASCII character (the parser drops leading
/// characters up to ' ', then, with no base URL, fails unless an ASCII
/// letter begins the scheme).
#[verifier::external_body]
pub(crate) fn parse_url(input: &str) -> (r: Option<String>)
    ensures
        r is Some <==> parsed_url(input@) is Some,
        r matches Some(u) ==> u@ == parsed_url(input@)->0,
        r is Some ==> input@.len() > 0 && (input@[0] as u32) < 128,
{
    match reqwest::Url::from_str(input) {
        Ok(u) => Some(u.as_str().to_string()),
        Err(_) => None,
    }
}

/// The download URL of each file of a manifest, in order, as parsed URLs;
/// or the position of the first file whose URL does not parse.
pub fn download_url_list(manifest: &ManifestJson) -> (r: Result<Vec<String>, usize>)
    ensures
        r matches Ok(urls) ==> {
            &&& urls.len() == manifest.files.len()
            &&& forall|i: int|
                0 <= i < urls.len() ==> parsed_url(manifest.files@[i].download_url@) == Some(
                    (#[trigger] urls@[i])@,
                )
        },
        r matches Err(k) ==> {
            &&& k < manifest.files.len()
            &&& parsed_url(manifest.files@[k as int].download_url@) is None
            &&& forall|i: int|
                0 <= i < k ==> (#[trigger] parsed_url(manifest.files@[i].download_url@)) is Some
        },
{
    let n = manifest.files.len();
    let mut urls: Vec<String> = Vec::new();
    let mut i: usize = 0;
    while i < n
        invariant
            n == manifest.files.len(),
            i <= n,
            urls.len() == i,
            forall|j: int|
                0 <= j < i ==> parsed_url(manifest.files@[j].download_url@) == Some(
                    (#[trigger] urls@[j])@,
                ),
        decreases n - i,
    {
        match parse_url(manifest.files[i].download_url.as_str()) {
            Some(u) => {
                urls.push(u);
            },
            None => {
                assert forall|j: int| 0 <= j < i implies (#[trigger] parsed_url(
                    manifest.files@[j].download_url@,
                )) is Some by {
                    assert(parsed_url(manifest.files@[j].download_url@) == Some(urls@[j]@));
                }
                return Err(i);
            },
        }
        i = i + 1;
    }
    Ok(urls)
}

} // verus!
