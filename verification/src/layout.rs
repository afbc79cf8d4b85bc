use vstd::prelude::*;
use vstd::string::*;
use crate::manifest::{parse_url, parsed_url};
use crate::text::has_prefix;
use crate::paths::{
    join_path, joined_path, path_file_stem, path_parent, std_path_file_stem, std_path_parent,
};

verus! {

/// Why the directories of a modpack cannot be derived from its path.
#[derive(Debug, Clone, Copy, PartialEq, Eq)]
pub enum ModpackPathError {
    /// The path has no parent directory.
    NoParentDir,
    /// The path has no file name to name the output directory after.
    MissingFileStem,
}

impl ModpackPathError {
    /// The message with which the download fails.
    pub fn message(&self) -> (s: String)
        ensures
            *self == ModpackPathError::NoParentDir ==> s@ == "Modpack file has no parent dir"@,
            *self == ModpackPathError::MissingFileStem ==> s@ == "Modpack file is missing .zip extension"@,
    {
        match self {
            ModpackPathError::NoParentDir => "Modpack file has no parent dir".to_string(),
            ModpackPathError::MissingFileStem => "Modpack file is missing .zip extension".to_string(),
        }
    }
}

/// Where a modpack is extracted, and where its mods are downloaded.
pub struct ModpackPaths {
    pub output: String,
    pub mods: String,
}

/// The output directory of a modpack: beside the archive, named after it
/// without its extension.
pub open spec fn output_dir_of(modpack: Seq<char>) -> Seq<char> {
    joined_path(std_path_parent(modpack)->0, std_path_file_stem(modpack)->0)
}

/// The directories of a modpack: the output directory and its "mods"
/// subdirectory. The parent directory is looked for first.
pub fn modpack_paths(modpack_path: &str) -> (r: Result<ModpackPaths, ModpackPathError>)
    ensures
        std_path_parent(modpack_path@) is None ==> r == Err::<ModpackPaths, _>(
            ModpackPathError::NoParentDir,
        ),
        std_path_parent(modpack_path@) is Some && std_path_file_stem(modpack_path@) is None ==> r
            == Err::<ModpackPaths, _>(ModpackPathError::MissingFileStem),
        r is Ok <==> (std_path_parent(modpack_path@) is Some && std_path_file_stem(modpack_path@) is Some),
        r matches Ok(p) ==> {
            &&& p.output@ == output_dir_of(modpack_path@)
            &&& p.mods@ == joined_path(p.output@, "mods"@)
        },
{
    let parent = match path_parent(modpack_path) {
        Some(p) => p,
        None => return Err(ModpackPathError::NoParentDir),
    };
    let stem = match path_file_stem(modpack_path) {
        Some(s) => s,
        None => return Err(ModpackPathError::MissingFileStem),
    };
    let output = join_path(parent.as_str(), stem.as_str());
    let mods = join_path(output.as_str(), "mods");
    Ok(ModpackPaths { output, mods })
}

/// The text after the last '/' of `s`, or all of it when it has none.
pub open spec fn after_last_slash(s: Seq<char>) -> Seq<char>
    decreases s.len(),
{
    if s.len() == 0 {
        s
    } else if s.last() == '/' {
        Seq::empty()
    } else {
        after_last_slash(s.drop_last()).push(s.last())
    }
}

/// The name under which a mod is saved: what follows the last '/' of its
/// download URL; for a URL without '/', the URL without its first character.
pub open spec fn mod_file_name_of(url: Seq<char>) -> Seq<char> {
    if url.contains('/') {
        after_last_slash(url)
    } else {
        url.skip(1)
    }
}

/// The download URLs whose file name can be cut out: those with a '/', and
/// the others whose first character takes one byte.
pub open spec fn file_name_cut_ok(url: Seq<char>) -> bool {
    url.contains('/') || (url.len() >= 1 && (url[0] as u32) < 128)
}

proof fn lemma_after_last_slash(s: Seq<char>)
    ensures
        !after_last_slash(s).contains('/'),
        (forall|j: int| 0 <= j < s.len() ==> s[j] != '/') ==> after_last_slash(s) == s,
        forall|k: int|
            0 <= k < s.len() && s[k] == '/' && (forall|j: int| k < j < s.len() ==> s[j] != '/')
                ==> after_last_slash(s) == s.skip(k + 1),
    decreases s.len(),
{
    if s.len() > 0 {
        let t = s.drop_last();
        lemma_after_last_slash(t);
        let a = after_last_slash(t);
        if s.last() != '/' {
            assert(!a.push(s.last()).contains('/')) by {
                if a.push(s.last()).contains('/') {
                    let j = choose|j: int| 0 <= j < a.push(s.last()).len() && a.push(s.last())[j] == '/';
                    assert(a[j] == '/');
                }
            }
            if forall|j: int| 0 <= j < s.len() ==> s[j] != '/' {
                assert(forall|j: int| 0 <= j < t.len() ==> t[j] != '/');
                assert(a == t);
                assert(a.push(s.last()) =~= s);
            }
            assert forall|k: int|
                0 <= k < s.len() && s[k] == '/' && (forall|j: int| k < j < s.len() ==> s[j] != '/')
                    implies after_last_slash(s) == s.skip(k + 1) by {
                assert(k < t.len());
                assert(t[k] == '/');
                assert(forall|j: int| k < j < t.len() ==> t[j] != '/');
                assert(a == t.skip(k + 1));
                assert(t.skip(k + 1).push(s.last()) =~= s.skip(k + 1));
            }
        } else {
            assert(!Seq::<char>::empty().contains('/'));
            assert(s[s.len() - 1] == '/');
            assert forall|k: int|
                0 <= k < s.len() && s[k] == '/' && (forall|j: int| k < j < s.len() ==> s[j] != '/')
                    implies after_last_slash(s) == s.skip(k + 1) by {
                if k < s.len() - 1 {
                    assert(s[s.len() - 1] != '/');
                }
                assert(s.skip(k + 1) =~= Seq::<char>::empty());
            }
        }
    }
}

proof fn lemma_after_last_slash_suffix(s: Seq<char>)
    ensures
        after_last_slash(s).len() <= s.len(),
        s.subrange(s.len() - after_last_slash(s).len(), s.len() as int) == after_last_slash(s),
        after_last_slash(s).len() < s.len() ==> s[s.len() - after_last_slash(s).len() - 1] == '/',
    decreases s.len(),
{
    if s.len() > 0 {
        let t = s.drop_last();
        lemma_after_last_slash_suffix(t);
        if s.last() == '/' {
            assert(s.subrange(s.len() as int, s.len() as int) =~= Seq::<char>::empty());
        } else {
            let a = after_last_slash(t);
            assert(s.subrange(s.len() - a.len() - 1, s.len() as int) =~= t.subrange(
                t.len() - a.len(),
                t.len() as int,
            ).push(s.last()));
            if a.len() + 1 < s.len() {
                assert(s[s.len() - a.len() - 2] == t[t.len() - a.len() - 1]);
            }
        }
    }
}

/// The file name of a mod is the end of its download URL: what follows the
/// last '/' when there is one (so it holds no '/' and a '/' stands just
/// before it), else the URL without its first character.
pub proof fn lemma_mod_file_name(url: Seq<char>)
    requires
        file_name_cut_ok(url),
    ensures
        !mod_file_name_of(url).contains('/'),
        mod_file_name_of(url).len() < url.len(),
        url.subrange(url.len() - mod_file_name_of(url).len(), url.len() as int) == mod_file_name_of(url),
        url.contains('/') ==> url[url.len() - mod_file_name_of(url).len() - 1] == '/',
        !url.contains('/') ==> mod_file_name_of(url).len() + 1 == url.len(),
{
    lemma_after_last_slash(url);
    lemma_after_last_slash_suffix(url);
    if url.contains('/') {
        let a = after_last_slash(url);
        if a.len() == url.len() {
            assert(url.subrange(0, url.len() as int) =~= url);
            assert(a == url);
        }
    } else {
        assert(url.subrange(1, url.len() as int) =~= url.skip(1));
    }
}

/// The file name under which a mod is saved, cut out of its download URL.
/// It holds no '/'.
pub fn mod_file_name(download_url: &str) -> (r: String)
    requires
        file_name_cut_ok(download_url@),
    ensures
        r@ == mod_file_name_of(download_url@),
        !r@.contains('/'),
        r@.len() < download_url@.len(),
        download_url@.subrange(download_url@.len() - r@.len(), download_url@.len() as int) == r@,
        download_url@.contains('/') ==> download_url@[download_url@.len() - r@.len() - 1] == '/',
        !download_url@.contains('/') ==> r@.len() + 1 == download_url@.len(),
{
    proof {
        lemma_mod_file_name(download_url@);
    }
    let n = download_url.unicode_len();
    let mut last: Option<usize> = None;
    let mut i: usize = 0;
    while i < n
        invariant
            n == download_url@.len(),
            i <= n,
            last matches Some(k) ==> k < i && download_url@[k as int] == '/' && (forall|j: int|
                k < j < i ==> download_url@[j] != '/'),
            last is None ==> forall|j: int| 0 <= j < i ==> download_url@[j] != '/',
        decreases n - i,
    {
        if download_url.get_char(i) == '/' {
            last = Some(i);
        }
        i = i + 1;
    }
    proof {
        lemma_after_last_slash(download_url@);
    }
    match last {
        Some(k) => {
            let r = download_url.substring_char(k + 1, n);
            assert(r@ =~= download_url@.skip(k + 1));
            assert(download_url@.contains('/')) by {
                assert(download_url@[k as int] == '/');
            }
            r.to_string()
        },
        None => {
            assert(!download_url@.contains('/'));
            let r = download_url.substring_char(1, n);
            assert(r@ =~= download_url@.skip(1));
            assert(!r@.contains('/')) by {
                if r@.contains('/') {
                    let j = choose|j: int| 0 <= j < r@.len() && r@[j] == '/';
                    assert(download_url@[j + 1] == '/');
                }
            }
            r.to_string()
        },
    }
}

/// One mod to fetch: its parsed URL, and the file it is saved to.
pub struct ModDownload {
    pub url: String,
    pub file_name: String,
    pub path: String,
}

/// How one file of a manifest is fetched: `None` when its URL does not
/// parse; else the parsed URL and the file, named after the URL, directly in
/// the mods directory.
pub fn plan_mod_download(download_url: &str, mods_path: &str) -> (r: Option<ModDownload>)
    ensures
        r is Some <==> parsed_url(download_url@) is Some,
        r matches Some(d) ==> {
            &&& parsed_url(download_url@) == Some(d.url@)
            &&& d.file_name@ == mod_file_name_of(download_url@)
            &&& !d.file_name@.contains('/')
            &&& d.path@ == joined_path(mods_path@, d.file_name@)
            &&& has_prefix(d.path@, mods_path@)
        },
{
    let url = match parse_url(download_url) {
        Some(u) => u,
        None => return None,
    };
    let file_name = mod_file_name(download_url);
    let path = join_path(mods_path, file_name.as_str());
    assert(has_prefix(path@, mods_path@)) by {
        if file_name@.len() > 0 {
            assert(file_name@[0] != '/') by {
                if file_name@[0] == '/' {
                    assert(file_name@.contains('/'));
                }
            }
        }
        assert(path@.subrange(0, mods_path@.len() as int) =~= mods_path@);
    }
    Some(ModDownload { url, file_name, path })
}

} // verus!
