use vstd::prelude::*;
use vstd::string::*;
use crate::text::has_prefix;

verus! {

/// `part` joined onto `base` the way a Unix path joins a component: a part
/// that starts with '/' replaces the base, an empty base gives the part, and
/// otherwise the two are separated by exactly one '/' (none is added when the
/// base already ends with one). Paths are written with '/' on every
/// platform; Windows accepts it as a separator too, so the same files are
/// reached there.
pub open spec fn joined_path(base: Seq<char>, part: Seq<char>) -> Seq<char> {
    if part.len() > 0 && part[0] == '/' {
        part
    } else if base.len() == 0 {
        part
    } else if base.last() == '/' {
        base + part
    } else {
        base + seq!['/'] + part
    }
}

/// The parts joined one after the other onto `base`.
pub open spec fn joined_all(base: Seq<char>, parts: Seq<Seq<char>>) -> Seq<char>
    decreases parts.len(),
{
    if parts.len() == 0 {
        base
    } else {
        joined_path(joined_all(base, parts.drop_last()), parts.last())
    }
}

/// `s` cut at every occurrence of `sep`: the pieces in order, empty ones
/// included, so that a string with k separators has k + 1 pieces.
pub open spec fn split_on(s: Seq<char>, sep: char) -> Seq<Seq<char>>
    decreases s.len(),
{
    if s.len() == 0 {
        seq![Seq::<char>::empty()]
    } else {
        let prev = split_on(s.drop_last(), sep);
        if s.last() == sep {
            prev.push(Seq::<char>::empty())
        } else {
            prev.update(prev.len() - 1, prev.last().push(s.last()))
        }
    }
}

pub proof fn lemma_split_nonempty(s: Seq<char>, sep: char)
    ensures
        split_on(s, sep).len() >= 1,
    decreases s.len(),
{
    if s.len() > 0 {
        lemma_split_nonempty(s.drop_last(), sep);
    }
}

/// Appending text without a separator only lengthens the last piece.
pub proof fn lemma_split_append(a: Seq<char>, b: Seq<char>, sep: char)
    requires
        !b.contains(sep),
    ensures
        split_on(a + b, sep) == split_on(a, sep).update(
            split_on(a, sep).len() - 1,
            split_on(a, sep).last() + b,
        ),
    decreases b.len(),
{
    lemma_split_nonempty(a, sep);
    if b.len() == 0 {
        assert(a + b =~= a);
        assert(split_on(a, sep).last() + b =~= split_on(a, sep).last());
        assert(split_on(a, sep).update(split_on(a, sep).len() - 1, split_on(a, sep).last())
            =~= split_on(a, sep));
    } else {
        let b0 = b.drop_last();
        assert(!b0.contains(sep)) by {
            if b0.contains(sep) {
                let k = choose|k: int| 0 <= k < b0.len() && b0[k] == sep;
                assert(b[k] == sep);
            }
        }
        lemma_split_append(a, b0, sep);
        assert((a + b).drop_last() =~= a + b0);
        assert(b.last() != sep) by {
            assert(b[b.len() - 1] == b.last());
        }
        let pa = split_on(a, sep);
        assert(pa.last() + b0 + seq![b.last()] =~= pa.last() + b);
        assert((pa.last() + b0).push(b.last()) =~= pa.last() + b);
        assert(split_on(a + b, sep) =~= pa.update(pa.len() - 1, pa.last() + b));
    }
}

/// Appending a separator opens a new, empty piece.
pub proof fn lemma_split_push_sep(a: Seq<char>, sep: char)
    ensures
        split_on(a.push(sep), sep) == split_on(a, sep).push(Seq::<char>::empty()),
{
    assert(a.push(sep).drop_last() =~= a);
}

/// The pieces of `s` cut at each '/', in order.
pub fn split_text(s: &str) -> (r: Vec<String>)
    ensures
        r@.map_values(|p: String| p@) == split_on(s@, '/'),
        join_with(r@.map_values(|p: String| p@), '/') == s@,
        forall|i: int| 0 <= i < r@.len() ==> !(#[trigger] r@[i])@.contains('/'),
{
    proof {
        lemma_split_rejoin(s@, '/');
    }
    let n = s.unicode_len();
    let mut done: Vec<String> = Vec::new();
    let mut cur = String::new();
    let mut i: usize = 0;
    while i < n
        invariant
            n == s@.len(),
            i <= n,
            done@.map_values(|p: String| p@).push(cur@) == split_on(s@.subrange(0, i as int), '/'),
        decreases n - i,
    {
        let c = s.get_char(i);
        let ghost pre = s@.subrange(0, i as int);
        let ghost post = s@.subrange(0, i + 1);
        assert(post.drop_last() =~= pre);
        assert(post.last() == c);
        if c == '/' {
            let ghost before = done@.map_values(|p: String| p@);
            done.push(cur);
            cur = String::new();
            assert(done@.map_values(|p: String| p@) =~= before.push(split_on(pre, '/').last()));
            assert(done@.map_values(|p: String| p@).push(cur@) =~= split_on(post, '/'));
        } else {
            let ghost before = done@.map_values(|p: String| p@);
            let ghost old_cur = cur@;
            let piece = s.substring_char(i, i + 1);
            assert(piece@ =~= seq![c]);
            cur.append(piece);
            assert(cur@ =~= old_cur.push(c));
            let ghost prev = split_on(pre, '/');
            assert(prev == before.push(old_cur));
            assert(prev.last() == old_cur);
            assert(split_on(post, '/') == prev.update(prev.len() - 1, old_cur.push(c)));
            assert(done@.map_values(|p: String| p@).push(cur@) =~= split_on(post, '/'));
        }
        i = i + 1;
    }
    assert(s@.subrange(0, n as int) =~= s@);
    done.push(cur);
    assert(done@.map_values(|p: String| p@) =~= split_on(s@, '/'));
    assert forall|i: int| 0 <= i < done@.len() implies !(#[trigger] done@[i])@.contains('/') by {
        assert(done@.map_values(|p: String| p@)[i] == done@[i]@);
    }
    done
}

/// Joins `part` onto `base` as [`joined_path`] states.
pub fn join_path(base: &str, part: &str) -> (r: String)
    ensures
        r@ == joined_path(base@, part@),
        base@.len() > 0 && base@.last() != '/' && (part@.len() == 0 || part@[0] != '/') ==> r@
            == base@ + seq!['/'] + part@,
{
    let pn = part.unicode_len();
    let bn = base.unicode_len();
    if pn > 0 && part.get_char(0) == '/' {
        part.to_string()
    } else if bn == 0 {
        part.to_string()
    } else if base.get_char(bn - 1) == '/' {
        let mut r = base.to_string();
        r.append(part);
        r
    } else {
        let mut r = base.to_string();
        let sep = "/";
        proof {
            reveal_strlit("/");
        }
        r.append(sep);
        r.append(part);
        assert(r@ =~= base@ + seq!['/'] + part@);
        r
    }
}

/// What `std::path::Path::parent` gives for a path, as text.
pub uninterp spec fn std_path_parent(path: Seq<char>) -> Option<Seq<char>>;

/// A component written plainly: not empty, neither "." nor "..", and
/// holding no separator ('/' or '\\') and no ':' (which starts a drive
/// prefix on Windows).
pub open spec fn is_plain_component(c: Seq<char>) -> bool {
    &&& c.len() > 0
    &&& !c.contains('/')
    &&& !c.contains('\\')
    &&& !c.contains(':')
    &&& c != seq!['.']
    &&& c != seq!['.', '.']
}

/// A directory written plainly: its first piece may be empty (a path from
/// the root) or anything without '\\' and ':', and every later piece is a
/// component other than ".", so the path has no repeated '/', no "/./" and no
/// trailing '/'.
pub open spec fn is_plain_dir(path: Seq<char>) -> bool {
    let pieces = split_on(path, '/');
    &&& pieces[0].len() > 0 || pieces.len() >= 2
    &&& forall|i: int|
        0 <= i < pieces.len() ==> !(#[trigger] pieces[i]).contains('\\') && !pieces[i].contains(':')
    &&& forall|i: int| 1 <= i < pieces.len() ==> (#[trigger] pieces[i]).len() > 0 && pieces[i] != seq!['.']
}

/// A path written plainly whose last piece is a component and whose parent
/// is not the root: a plain directory, '/', then a plain component.
pub open spec fn is_plain_path(path: Seq<char>) -> bool {
    let pieces = split_on(path, '/');
    &&& pieces.len() >= 2
    &&& pieces[0].len() > 0 || pieces.len() >= 3
    &&& forall|i: int|
        0 <= i < pieces.len() ==> !(#[trigger] pieces[i]).contains('\\') && !pieces[i].contains(':')
    &&& forall|i: int| 1 <= i < pieces.len() ==> (#[trigger] pieces[i]).len() > 0 && pieces[i] != seq!['.']
    &&& pieces.last() != seq!['.', '.']
}

/// A path without its last piece and the '/' before it.
pub open spec fn without_last_component(path: Seq<char>) -> Seq<char> {
    path.subrange(0, path.len() - split_on(path, '/').last().len() - 1)
}

/// The parent of a path, through `std::path::Path::parent`. Claimed: the
/// result is a function of the path, and for a path written plainly it is
/// the path without its last component, as the documentation of `parent`
/// says ("the Path without its final component").
#[verifier::external_body]
pub(crate) fn path_parent(path: &str) -> (r: Option<String>)
    ensures
        r is Some <==> std_path_parent(path@) is Some,
        r matches Some(p) ==> p@ == std_path_parent(path@)->0,
        is_plain_path(path@) ==> r is Some,
        r matches Some(p) ==> (is_plain_path(path@) ==> p@ == without_last_component(path@)),
{
    match std::path::Path::new(path).parent() {
        Some(p) => Some(p.to_string_lossy().into_owned()),
        None => None,
    }
}

/// What `std::path::Path::file_stem` gives for a path, as text.
pub uninterp spec fn std_path_file_stem(path: Seq<char>) -> Option<Seq<char>>;

/// The file name of a path without its extension, through
/// `std::path::Path::file_stem`: claimed only to be a function of the path.
#[verifier::external_body]
pub(crate) fn path_file_stem(path: &str) -> (r: Option<String>)
    ensures
        r is Some <==> std_path_file_stem(path@) is Some,
        r matches Some(p) ==> p@ == std_path_file_stem(path@)->0,
{
    match std::path::Path::new(path).file_stem() {
        Some(p) => Some(p.to_string_lossy().into_owned()),
        None => None,
    }
}


/// Every piece of a path cut at '/' is empty or one of the parts it was
/// joined from, and the path does not start with '/', when it is joined
/// from nothing but parts without '/'.
pub proof fn lemma_joined_all_segments(parts: Seq<Seq<char>>)
    requires
        forall|j: int| 0 <= j < parts.len() ==> !(#[trigger] parts[j]).contains('/'),
    ensures
        forall|i: int|
            0 <= i < split_on(joined_all(Seq::empty(), parts), '/').len() ==> {
                let seg = #[trigger] split_on(joined_all(Seq::empty(), parts), '/')[i];
                seg.len() == 0 || parts.contains(seg)
            },
        joined_all(Seq::empty(), parts).len() > 0 ==> joined_all(Seq::empty(), parts)[0] != '/',
    decreases parts.len(),
{
    if parts.len() > 0 {
        let init = parts.drop_last();
        let q = parts.last();
        assert(forall|j: int| 0 <= j < init.len() ==> #[trigger] init[j] == parts[j]);
        lemma_joined_all_segments(init);
        let base = joined_all(Seq::empty(), init);
        let path = joined_all(Seq::empty(), parts);
        assert(!q.contains('/')) by {
            assert(q == parts[parts.len() - 1]);
        }
        assert(parts.contains(q)) by {
            assert(parts[parts.len() - 1] == q);
        }
        assert forall|s: Seq<char>| init.contains(s) implies parts.contains(s) by {
            let j = choose|j: int| 0 <= j < init.len() && init[j] == s;
            assert(parts[j] == s);
        }
        lemma_split_nonempty(base, '/');
        if q.len() > 0 && q[0] == '/' {
            assert(q.contains('/'));
        } else if base.len() == 0 {
            assert(path == q);
            lemma_split_append(Seq::<char>::empty(), q, '/');
            assert(Seq::<char>::empty() + q =~= q);
            assert(split_on(q, '/') =~= seq![q]);
            if q.len() > 0 {
                assert(q[0] != '/') by {
                    if q[0] == '/' {
                        assert(q.contains('/'));
                    }
                }
            }
        } else if base.last() == '/' {
            assert(path == base + q);
            let b0 = base.drop_last();
            assert(b0.push('/') =~= base);
            lemma_split_push_sep(b0, '/');
            lemma_split_append(base, q, '/');
            let sb = split_on(base, '/');
            assert(sb.last() == Seq::<char>::empty());
            assert(sb.last() + q =~= q);
            assert forall|i: int|
                0 <= i < split_on(path, '/').len() implies {
                    let seg = #[trigger] split_on(path, '/')[i];
                    seg.len() == 0 || parts.contains(seg)
                } by {
                if i < sb.len() - 1 {
                    assert(split_on(path, '/')[i] == sb[i]);
                }
            }
            assert(path[0] == base[0]);
        } else {
            let with_sep = base + seq!['/'];
            assert(path == with_sep + q);
            assert(with_sep =~= base.push('/'));
            lemma_split_push_sep(base, '/');
            lemma_split_append(with_sep, q, '/');
            let sb = split_on(base, '/');
            let sw = split_on(with_sep, '/');
            assert(sw == sb.push(Seq::<char>::empty()));
            assert(sw.last() + q =~= q);
            assert forall|i: int|
                0 <= i < split_on(path, '/').len() implies {
                    let seg = #[trigger] split_on(path, '/')[i];
                    seg.len() == 0 || parts.contains(seg)
                } by {
                if i < sw.len() - 1 {
                    assert(split_on(path, '/')[i] == sb[i]);
                }
            }
            assert(path[0] == base[0]);
        }
    }
}


/// Joining two texts with a separator puts their pieces end to end.
pub proof fn lemma_split_concat(a: Seq<char>, b: Seq<char>, sep: char)
    ensures
        split_on(a + seq![sep] + b, sep) == split_on(a, sep) + split_on(b, sep),
    decreases b.len(),
{
    lemma_split_nonempty(a, sep);
    lemma_split_nonempty(b, sep);
    if b.len() == 0 {
        assert(a + seq![sep] + b =~= a.push(sep));
        lemma_split_push_sep(a, sep);
        assert(split_on(b, sep) =~= seq![Seq::<char>::empty()]);
        assert(split_on(a, sep).push(Seq::<char>::empty()) =~= split_on(a, sep) + split_on(b, sep));
    } else {
        let b0 = b.drop_last();
        let c = b.last();
        lemma_split_concat(a, b0, sep);
        lemma_split_nonempty(b0, sep);
        let whole = a + seq![sep] + b;
        assert(whole.drop_last() =~= a + seq![sep] + b0);
        assert(whole.last() == c);
        let left = split_on(a, sep);
        let right0 = split_on(b0, sep);
        if c == sep {
            assert(split_on(whole, sep) == (left + right0).push(Seq::<char>::empty()));
            assert(split_on(b, sep) == right0.push(Seq::<char>::empty()));
            assert((left + right0).push(Seq::<char>::empty()) =~= left + right0.push(Seq::<char>::empty()));
        } else {
            let joined = left + right0;
            assert(split_on(whole, sep) == joined.update(joined.len() - 1, joined.last().push(c)));
            assert(split_on(b, sep) == right0.update(right0.len() - 1, right0.last().push(c)));
            assert(joined.last() == right0.last());
            assert(joined.update(joined.len() - 1, joined.last().push(c)) =~= left + right0.update(
                right0.len() - 1,
                right0.last().push(c),
            ));
        }
    }
}

/// The last piece of a text is no longer than the text.
pub proof fn lemma_split_last_len(s: Seq<char>, sep: char)
    ensures
        split_on(s, sep).last().len() <= s.len(),
    decreases s.len(),
{
    lemma_split_nonempty(s, sep);
    if s.len() > 0 {
        lemma_split_last_len(s.drop_last(), sep);
        lemma_split_nonempty(s.drop_last(), sep);
    }
}

/// Plain components joined one after the other cut back into themselves.
pub proof fn lemma_joined_plain(parts: Seq<Seq<char>>)
    requires
        parts.len() > 0,
        forall|j: int| 0 <= j < parts.len() ==> is_plain_component(#[trigger] parts[j]),
    ensures
        split_on(joined_all(Seq::empty(), parts), '/') == parts,
        joined_all(Seq::empty(), parts).len() > 0,
        joined_all(Seq::empty(), parts)[0] != '/',
        joined_all(Seq::empty(), parts).last() != '/',
    decreases parts.len(),
{
    let init = parts.drop_last();
    let x = parts.last();
    assert(is_plain_component(parts[parts.len() - 1]));
    assert(x.last() != '/' && x[0] != '/') by {
        if x.last() == '/' {
            assert(x.contains('/')) by { assert(x[x.len() - 1] == '/'); }
        }
        if x[0] == '/' {
            assert(x.contains('/'));
        }
    }
    lemma_split_append(Seq::<char>::empty(), x, '/');
    assert(Seq::<char>::empty() + x =~= x);
    assert(split_on(x, '/') =~= seq![x]);
    if init.len() == 0 {
        assert(joined_all(Seq::empty(), init) == Seq::<char>::empty());
        assert(parts =~= seq![x]);
    } else {
        assert forall|j: int| 0 <= j < init.len() implies is_plain_component(#[trigger] init[j]) by {
            assert(init[j] == parts[j]);
        }
        lemma_joined_plain(init);
        let r0 = joined_all(Seq::empty(), init);
        assert(joined_all(Seq::empty(), parts) == r0 + seq!['/'] + x);
        lemma_split_concat(r0, x, '/');
        assert(init + seq![x] =~= parts);
        assert((r0 + seq!['/'] + x)[0] == r0[0]);
        assert((r0 + seq!['/'] + x).last() == x.last());
    }
}

/// A plain directory joined with plain components is a plain path, and
/// its parent lies in the directory.
pub proof fn lemma_plain_join(dir: Seq<char>, parts: Seq<Seq<char>>)
    requires
        is_plain_dir(dir),
        parts.len() > 0,
        forall|j: int| 0 <= j < parts.len() ==> is_plain_component(#[trigger] parts[j]),
    ensures
        is_plain_path(joined_path(dir, joined_all(Seq::empty(), parts))),
        ({
            let path = joined_path(dir, joined_all(Seq::empty(), parts));
            has_prefix(without_last_component(path), dir)
        }),
{
    let r = joined_all(Seq::empty(), parts);
    lemma_joined_plain(parts);
    let dp = split_on(dir, '/');
    lemma_split_nonempty(dir, '/');
    assert(dir.len() > 0) by {
        if dir.len() == 0 {
            assert(dp =~= seq![Seq::<char>::empty()]);
        }
    }
    assert(dir.last() != '/') by {
        if dir.last() == '/' {
            assert(dir.drop_last().push('/') =~= dir);
            lemma_split_push_sep(dir.drop_last(), '/');
            lemma_split_nonempty(dir.drop_last(), '/');
            assert(dp.last().len() == 0);
            assert(dp[dp.len() - 1].len() == 0);
        }
    }
    let path = joined_path(dir, r);
    assert(path == dir + seq!['/'] + r);
    lemma_split_concat(dir, r, '/');
    let pp = split_on(path, '/');
    assert(pp == dp + parts);
    assert(is_plain_component(parts[parts.len() - 1]));
    assert forall|i: int| 0 <= i < pp.len() implies !(#[trigger] pp[i]).contains('\\') && !pp[i].contains(':') by {
        if i < dp.len() {
            assert(pp[i] == dp[i]);
        } else {
            assert(pp[i] == parts[i - dp.len()]);
        }
    }
    assert forall|i: int| 1 <= i < pp.len() implies (#[trigger] pp[i]).len() > 0 && pp[i] != seq!['.'] by {
        if i < dp.len() {
            assert(pp[i] == dp[i]);
        } else {
            assert(pp[i] == parts[i - dp.len()]);
        }
    }
    assert(pp.last() == parts.last());
    assert(pp[0] == dp[0]);
    lemma_split_last_len(r, '/');
    assert(split_on(r, '/').last() == parts.last());
    let w = without_last_component(path);
    assert(w.len() >= dir.len());
    assert(w.subrange(0, dir.len() as int) =~= dir);
}

/// Pieces put back together with the separator between each two.
pub open spec fn join_with(pieces: Seq<Seq<char>>, sep: char) -> Seq<char>
    decreases pieces.len(),
{
    if pieces.len() == 0 {
        Seq::empty()
    } else if pieces.len() == 1 {
        pieces[0]
    } else {
        join_with(pieces.drop_last(), sep) + seq![sep] + pieces.last()
    }
}

/// Cutting a text at a separator loses nothing: no piece holds the
/// separator, and putting the pieces back together with it gives the text.
pub proof fn lemma_split_rejoin(s: Seq<char>, sep: char)
    ensures
        join_with(split_on(s, sep), sep) == s,
        forall|i: int|
            0 <= i < split_on(s, sep).len() ==> !(#[trigger] split_on(s, sep)[i]).contains(sep),
    decreases s.len(),
{
    lemma_split_nonempty(s, sep);
    if s.len() == 0 {
        assert(split_on(s, sep) =~= seq![Seq::<char>::empty()]);
        assert(s =~= Seq::<char>::empty());
    } else {
        let t = s.drop_last();
        let c = s.last();
        lemma_split_rejoin(t, sep);
        lemma_split_nonempty(t, sep);
        let p = split_on(t, sep);
        assert(t.push(c) =~= s);
        if c == sep {
            let q = p.push(Seq::<char>::empty());
            assert(split_on(s, sep) == q);
            assert(q.drop_last() =~= p);
            assert(join_with(q, sep) == t + seq![sep] + Seq::<char>::empty());
            assert(t + seq![sep] + Seq::<char>::empty() =~= s);
            assert forall|i: int| 0 <= i < q.len() implies !(#[trigger] q[i]).contains(sep) by {
                if i < p.len() {
                    assert(q[i] == p[i]);
                }
            }
        } else {
            let x = p.last().push(c);
            let q = p.update(p.len() - 1, x);
            assert(split_on(s, sep) == q);
            assert(!p[p.len() - 1].contains(sep));
            assert(!x.contains(sep)) by {
                if x.contains(sep) {
                    let k = choose|k: int| 0 <= k < x.len() && x[k] == sep;
                    if k < p.last().len() {
                        assert(p.last()[k] == sep);
                        assert(p.last().contains(sep));
                    }
                }
            }
            assert forall|i: int| 0 <= i < q.len() implies !(#[trigger] q[i]).contains(sep) by {
                if i < p.len() - 1 {
                    assert(q[i] == p[i]);
                }
            }
            if p.len() == 1 {
                assert(join_with(p, sep) == p[0]);
                assert(join_with(q, sep) == q[0]);
                assert(x =~= s);
            } else {
                assert(q.drop_last() =~= p.drop_last());
                assert(join_with(q, sep) == join_with(p.drop_last(), sep) + seq![sep] + x);
                assert(join_with(p, sep) == join_with(p.drop_last(), sep) + seq![sep] + p.last());
                assert(join_with(p.drop_last(), sep) + seq![sep] + x =~= (join_with(p.drop_last(), sep)
                    + seq![sep] + p.last()).push(c));
            }
        }
    }
}

/// Joining a part onto a directory that does not end in '/' adds exactly
/// one separator: the pieces of the result are the directory's pieces
/// followed by the part's, and the result starts with the directory.
pub proof fn lemma_joined_path_pieces(base: Seq<char>, part: Seq<char>)
    requires
        base.len() > 0,
        base.last() != '/',
        part.len() == 0 || part[0] != '/',
    ensures
        split_on(joined_path(base, part), '/') == split_on(base, '/') + split_on(part, '/'),
        has_prefix(joined_path(base, part), base),
{
    assert(joined_path(base, part) == base + seq!['/'] + part);
    lemma_split_concat(base, part, '/');
    assert(joined_path(base, part).subrange(0, base.len() as int) =~= base);
}

} // verus!
