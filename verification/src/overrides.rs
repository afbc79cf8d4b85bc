use vstd::prelude::*;
use vstd::string::*;
use crate::paths::{
    is_plain_component, is_plain_dir, joined_all, joined_path, join_path,
    lemma_joined_all_segments, lemma_plain_join, lemma_split_append, lemma_split_concat,
    lemma_split_nonempty, path_parent, split_on, split_text, std_path_parent,
};
use crate::text::{has_prefix, starts_with_text};

verus! {

/// An archive entry name with every '\' turned into '/'.
pub open spec fn normalized_entry_name(name: Seq<char>) -> Seq<char> {
    name.map_values(|c: char| if c == '\\' { '/' } else { c })
}

/// Whether an entry belongs to the overrides of a modpack: its name starts
/// with "overrides/" or "/overrides/".
pub open spec fn is_override_name(name: Seq<char>) -> bool {
    has_prefix(name, "overrides/"@) || has_prefix(name, "/overrides/"@)
}

/// Every name below "overrides/" or "/overrides/" belongs to the overrides.
pub proof fn lemma_override_names(rest: Seq<char>)
    ensures
        is_override_name("overrides/"@ + rest),
        is_override_name("/overrides/"@ + rest),
{
    crate::text::lemma_has_prefix("overrides/"@ + rest, "overrides/"@, rest);
    crate::text::lemma_has_prefix("/overrides/"@ + rest, "/overrides/"@, rest);
}

/// A name that starts with neither "overrides/" nor "/overrides/" is not
/// part of the overrides; in particular none whose first character is
/// neither 'o' nor '/', and none shorter than "overrides/".
pub proof fn lemma_not_override_names(name: Seq<char>)
    ensures
        !has_prefix(name, "overrides/"@) && !has_prefix(name, "/overrides/"@) ==> !is_override_name(
            name,
        ),
        name.len() > 0 && name[0] != 'o' && name[0] != '/' ==> !is_override_name(name),
        name.len() < 10 ==> !is_override_name(name),
{
    reveal_strlit("overrides/");
    reveal_strlit("/overrides/");
    if name.len() > 0 && name[0] != 'o' && name[0] != '/' {
        if has_prefix(name, "overrides/"@) {
            assert(name.subrange(0, 10)[0] == name[0]);
        }
        if has_prefix(name, "/overrides/"@) {
            assert(name.subrange(0, 11)[0] == name[0]);
        }
    }
}

/// Normalizing an entry name changes only its '\' characters, each into
/// '/'; every other character stays where it was, so a name without '\'
/// is left as it is.
pub proof fn lemma_normalized_chars(name: Seq<char>)
    ensures
        normalized_entry_name(name).len() == name.len(),
        forall|i: int|
            0 <= i < name.len() && name[i] == '\\' ==> #[trigger] normalized_entry_name(name)[i] == '/',
        forall|i: int|
            0 <= i < name.len() && name[i] != '\\' ==> #[trigger] normalized_entry_name(name)[i]
                == name[i],
        !name.contains('\\') ==> normalized_entry_name(name) == name,
{
    if !name.contains('\\') {
        assert forall|i: int| 0 <= i < name.len() implies normalized_entry_name(name)[i] == name[i] by {
            if name[i] == '\\' {
                assert(name.contains('\\'));
            }
        }
        assert(normalized_entry_name(name) =~= name);
    }
}

/// What `sanitize_filename::sanitize` makes of a name.
pub uninterp spec fn sanitized_name(name: Seq<char>) -> Seq<char>;

/// How many leading pieces of an entry name stand for the overrides
/// directory: the first piece, and also the empty piece before it when the
/// name starts with '/'.
pub open spec fn overrides_prefix_pieces(name: Seq<char>) -> int {
    let pieces = split_on(name, '/');
    if pieces.len() >= 2 && pieces[0].len() == 0 {
        2
    } else {
        1
    }
}

/// The sanitized pieces of an entry name below the overrides directory.
pub open spec fn sanitized_parts(name: Seq<char>) -> Seq<Seq<char>> {
    split_on(name, '/').skip(overrides_prefix_pieces(name)).map_values(
        |p: Seq<char>| sanitized_name(p),
    )
}

/// Where an override entry lands, relative to the output directory.
pub open spec fn override_relative_path(name: Seq<char>) -> Seq<char> {
    joined_all(Seq::empty(), sanitized_parts(name))
}

/// A name that is "." or "..".
pub open spec fn is_dot_name(s: Seq<char>) -> bool {
    s == seq!['.'] || s == seq!['.', '.']
}

/// A file name made safe by `sanitize_filename::sanitize` with its default
/// options. Claimed of it: the result is a function of the name, holds no
/// '/', '\' or ':', and is neither "." nor ".." (on every platform the crate
/// removes those three with its other illegal characters, replaces a name
/// made only of dots by the empty string, and only shortens names longer
/// than 255 bytes).
#[verifier::external_body]
fn sanitize_component(name: &str) -> (r: String)
    ensures
        r@ == sanitized_name(name@),
        !r@.contains('/'),
        !r@.contains('\\'),
        !r@.contains(':'),
        !is_dot_name(r@),
{
    sanitize_filename::sanitize(name)
}

/// Turns every '\' of an entry name into '/'.
pub fn normalize_entry_name(name: &str) -> (r: String)
    ensures
        r@ == normalized_entry_name(name@),
        r@.len() == name@.len(),
        forall|i: int| 0 <= i < name@.len() && name@[i] == '\\' ==> #[trigger] r@[i] == '/',
        forall|i: int| 0 <= i < name@.len() && name@[i] != '\\' ==> #[trigger] r@[i] == name@[i],
        !name@.contains('\\') ==> r@ == name@,
{
    let n = name.unicode_len();
    let slash = "/";
    proof {
        reveal_strlit("/");
    }
    let mut r = String::new();
    let mut i: usize = 0;
    while i < n
        invariant
            n == name@.len(),
            i <= n,
            slash@ == seq!['/'],
            r@ == normalized_entry_name(name@.subrange(0, i as int)),
        decreases n - i,
    {
        let c = name.get_char(i);
        let ghost prev = r@;
        if c == '\\' {
            r.append(slash);
        } else {
            let piece = name.substring_char(i, i + 1);
            assert(piece@ =~= seq![c]);
            r.append(piece);
        }
        assert(r@ =~= normalized_entry_name(name@.subrange(0, i + 1)));
        i = i + 1;
    }
    assert(name@.subrange(0, n as int) =~= name@);
    proof {
        lemma_normalized_chars(name@);
    }
    r
}

/// Whether a (normalized) entry name belongs to the overrides.
pub fn is_override_entry(name: &str) -> (r: bool)
    ensures
        r == is_override_name(name@),
{
    let a = starts_with_text(name, "overrides/");
    let b = starts_with_text(name, "/overrides/");
    a || b
}

/// The path, relative to the output directory, to which an override entry
/// is extracted: its pieces below the overrides directory ("overrides/" or
/// "/overrides/"), each sanitized, joined in order. No piece of the result
/// is "." or "..", and it does not start with '/', so it never leaves the
/// output directory; each sanitized piece that is not empty is a plain
/// component.
pub fn sanitize_override_path(path: &str) -> (r: String)
    ensures
        r@ == override_relative_path(path@),
        forall|j: int|
            0 <= j < sanitized_parts(path@).len() && (#[trigger] sanitized_parts(path@)[j]).len() > 0
                ==> is_plain_component(sanitized_parts(path@)[j]),
        forall|i: int|
            0 <= i < split_on(r@, '/').len() ==> !is_dot_name(#[trigger] split_on(r@, '/')[i]),
        r@.len() > 0 ==> r@[0] != '/',
{
    let pieces = split_text(path);
    let ghost views = pieces@.map_values(|p: String| p@);
    let n = pieces.len();
    proof {
        crate::paths::lemma_split_nonempty(path@, '/');
    }
    let start: usize = if n >= 2 && pieces[0].unicode_len() == 0 {
        2
    } else {
        1
    };
    assert(start == overrides_prefix_pieces(path@)) by {
        if n >= 2 {
            assert(pieces@[0]@ == views[0]);
        }
    }
    let mut r = String::new();
    let ghost mut parts: Seq<Seq<char>> = Seq::empty();
    let mut i: usize = start;
    assert(r@ =~= joined_all(Seq::empty(), parts));
    while i < n
        invariant
            n == pieces@.len(),
            views == split_on(path@, '/'),
            views == pieces@.map_values(|p: String| p@),
            start == overrides_prefix_pieces(path@),
            start <= i <= n,
            n >= 1,
            parts == sanitized_parts(path@).subrange(0, i - start),
            r@ == joined_all(Seq::empty(), parts),
            forall|j: int|
                0 <= j < parts.len() ==> !(#[trigger] parts[j]).contains('/') && !is_dot_name(parts[j])
                    && !parts[j].contains('\\') && !parts[j].contains(':'),
        decreases n - i,
    {
        let s = sanitize_component(pieces[i].as_str());
        let ghost old_parts = parts;
        proof {
            parts = parts.push(s@);
        }
        assert(parts.drop_last() =~= old_parts);
        assert(parts == sanitized_parts(path@).subrange(0, i + 1 - start)) by {
            assert(sanitized_parts(path@)[i - start] == sanitized_name(views[i as int]));
            assert(pieces@[i as int]@ == views[i as int]);
        }
        r = join_path(r.as_str(), s.as_str());
        i = i + 1;
    }
    assert(parts =~= sanitized_parts(path@));
    proof {
        lemma_joined_all_segments(parts);
        assert forall|k: int|
            0 <= k < split_on(r@, '/').len() implies !is_dot_name(#[trigger] split_on(r@, '/')[k]) by {
            let seg = split_on(r@, '/')[k];
            if seg.len() > 0 {
                let j = choose|j: int| 0 <= j < parts.len() && parts[j] == seg;
                assert(!is_dot_name(parts[j]));
            }
        }
    }
    r
}

/// Below either form of the overrides directory ("overrides/" or
/// "/overrides/"), the pieces of an entry are the pieces of the rest of its
/// name, each sanitized: the overrides directory (and the empty piece before
/// a leading '/') is what is dropped, and nothing else.
pub proof fn lemma_parts_below_overrides(rest: Seq<char>)
    ensures
        sanitized_parts("overrides/"@ + rest) == split_on(rest, '/').map_values(
            |p: Seq<char>| sanitized_name(p),
        ),
        sanitized_parts("/overrides/"@ + rest) == split_on(rest, '/').map_values(
            |p: Seq<char>| sanitized_name(p),
        ),
{
    reveal_strlit("overrides/");
    reveal_strlit("/overrides/");
    let a = seq!['o', 'v', 'e', 'r', 'r', 'i', 'd', 'e', 's'];
    assert(!a.contains('/')) by {
        if a.contains('/') {
            let k = choose|k: int| 0 <= k < a.len() && a[k] == '/';
            assert(a[k] != '/');
        }
    }
    lemma_split_append(Seq::<char>::empty(), a, '/');
    assert(Seq::<char>::empty() + a =~= a);
    assert(split_on(a, '/') =~= seq![a]);
    lemma_split_nonempty(rest, '/');
    let pr = split_on(rest, '/');
    let n1 = "overrides/"@ + rest;
    assert(n1 =~= a + seq!['/'] + rest);
    lemma_split_concat(a, rest, '/');
    assert(split_on(n1, '/') == seq![a] + pr);
    assert(overrides_prefix_pieces(n1) == 1);
    assert((seq![a] + pr).skip(1) =~= pr);
    let n2 = "/overrides/"@ + rest;
    let tail = a + seq!['/'] + rest;
    assert(n2 =~= Seq::<char>::empty() + seq!['/'] + tail);
    lemma_split_concat(Seq::<char>::empty(), tail, '/');
    assert(split_on(Seq::<char>::empty(), '/') =~= seq![Seq::<char>::empty()]);
    assert(split_on(n2, '/') == seq![Seq::<char>::empty()] + (seq![a] + pr));
    assert(overrides_prefix_pieces(n2) == 2);
    assert((seq![Seq::<char>::empty()] + (seq![a] + pr)).skip(2) =~= pr);
}

/// A name of the overrides has at least one piece below the overrides directory.
proof fn lemma_override_parts_nonempty(name: Seq<char>)
    requires
        is_override_name(name),
    ensures
        sanitized_parts(name).len() > 0,
{
    reveal_strlit("overrides/");
    reveal_strlit("/overrides/");
    let a = seq!['o', 'v', 'e', 'r', 'r', 'i', 'd', 'e', 's'];
    assert(!a.contains('/')) by {
        if a.contains('/') {
            let k = choose|k: int| 0 <= k < a.len() && a[k] == '/';
            assert(a[k] != '/');
        }
    }
    lemma_split_append(Seq::<char>::empty(), a, '/');
    assert(Seq::<char>::empty() + a =~= a);
    assert(split_on(a, '/') =~= seq![a]);
    if has_prefix(name, "overrides/"@) {
        let rest = name.skip(10);
        assert(name =~= a + seq!['/'] + rest) by {
            assert(name.subrange(0, 10) == "overrides/"@);
            assert("overrides/"@ =~= a + seq!['/']);
            assert(name =~= name.subrange(0, 10) + rest);
        }
        lemma_split_concat(a, rest, '/');
        lemma_split_nonempty(rest, '/');
        assert(split_on(name, '/')[0] == a);
    } else {
        let rest = name.skip(11);
        let tail = a + seq!['/'] + rest;
        assert(name =~= Seq::<char>::empty() + seq!['/'] + tail) by {
            assert(name.subrange(0, 11) == "/overrides/"@);
            assert("/overrides/"@ =~= seq!['/'] + a + seq!['/']);
            assert(name =~= name.subrange(0, 11) + rest);
        }
        lemma_split_concat(a, rest, '/');
        lemma_split_nonempty(rest, '/');
        lemma_split_concat(Seq::<char>::empty(), tail, '/');
        assert(split_on(Seq::<char>::empty(), '/') =~= seq![Seq::<char>::empty()]);
        assert(split_on(name, '/')[0] == Seq::<char>::empty());
        assert(split_on(name, '/').len() >= 3);
    }
}

/// The file system work that one archive entry of the overrides asks for.
pub enum OverridePlan {
    /// Create this directory (and its ancestors).
    Directory { path: String },
    /// Write the entry to `path`, after creating `parent` (when the path has none,
    /// extraction fails).
    File { path: String, parent: Option<String> },
}

/// Where an override entry lands.
pub open spec fn override_target(name: Seq<char>, output: Seq<char>) -> Seq<char> {
    joined_path(output, override_relative_path(name))
}

/// What extracting one archive entry into `output_path` amounts to: nothing
/// for an entry outside the overrides; a directory for a name that ends in
/// '/'; else a file and its parent directory.
pub fn plan_override_entry(entry_name: &str, output_path: &str) -> (r: Option<OverridePlan>)
    ensures
        ({
            let name = normalized_entry_name(entry_name@);
            &&& r is Some <==> is_override_name(name)
            &&& r matches Some(OverridePlan::Directory { path }) ==> {
                &&& name.last() == '/'
                &&& path@ == override_target(name, output_path@)
            }
            &&& r matches Some(OverridePlan::File { path, parent }) ==> {
                &&& name.last() != '/'
                &&& path@ == override_target(name, output_path@)
                &&& (parent is Some <==> std_path_parent(path@) is Some)
                &&& (parent matches Some(p) ==> p@ == std_path_parent(path@)->0)
                &&& (is_plain_dir(output_path@) && (forall|j: int|
                    0 <= j < sanitized_parts(name).len() ==> (#[trigger] sanitized_parts(name)[j]).len()
                        > 0)) ==> (parent matches Some(p) && has_prefix(p@, output_path@))
            }
            &&& r is Some ==> {
                &&& forall|i: int|
                    0 <= i < split_on(override_relative_path(name), '/').len() ==> !is_dot_name(
                        #[trigger] split_on(override_relative_path(name), '/')[i],
                    )
                &&& override_relative_path(name).len() > 0 ==> override_relative_path(name)[0] != '/'
            }
            &&& r matches Some(plan) ==> has_prefix(
                match plan {
                    OverridePlan::Directory { path } => path@,
                    OverridePlan::File { path, .. } => path@,
                },
                output_path@,
            )
        }),
{
    let name = normalize_entry_name(entry_name);
    if !is_override_entry(name.as_str()) {
        return None;
    }
    let rel = sanitize_override_path(name.as_str());
    let path = join_path(output_path, rel.as_str());
    assert(has_prefix(path@, output_path@)) by {
        assert(path@.subrange(0, output_path@.len() as int) =~= output_path@);
    }
    let n = name.unicode_len();
    proof {
        reveal_strlit("overrides/");
        reveal_strlit("/overrides/");
    }
    assert(n > 0);
    if name.get_char(n - 1) == '/' {
        Some(OverridePlan::Directory { path })
    } else {
        let parent = path_parent(path.as_str());
        proof {
            let parts = sanitized_parts(name@);
            if is_plain_dir(output_path@) && (forall|j: int|
                0 <= j < parts.len() ==> (#[trigger] parts[j]).len() > 0) {
                lemma_override_parts_nonempty(name@);
                assert forall|j: int| 0 <= j < parts.len() implies is_plain_component(#[trigger] parts[j]) by {
                    assert(parts[j].len() > 0);
                }
                lemma_plain_join(output_path@, parts);
            }
        }
        Some(OverridePlan::File { path, parent })
    }
}

} // verus!
