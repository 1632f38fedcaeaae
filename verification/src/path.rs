//! Entry names as `/`-separated paths, and the rule that confines them to a
//! destination root.
//!
//! A path is read as its characters. It is cut into raw segments at every
//! `/` and at every `\`: an archive writes `/`, but a file system that
//! reads `\` as a separator must not be led out of the root by a name that
//! one reading `/` alone would find harmless. The segments that count when
//! two paths are compared are the raw ones that are neither empty nor `.`.
//! Paths are joined with `/`.

use vstd::prelude::*;

verus! {

/// Why a candidate name was not approved.
#[derive(Clone, Copy, Debug, PartialEq, Eq, Structural)]
pub enum PathRejection {
    /// One of the name's segments is `..`.
    ParentReference,
    /// The name is absolute, so what it names does not lie below the root.
    EscapesDestination,
}

/// Whether a character separates the segments of a path.
pub open spec fn is_separator(c: char) -> bool {
    c == '/' || c == '\\'
}

/// The segment `..`.
pub open spec fn parent_segment() -> Seq<char> {
    seq!['.', '.']
}

/// The segment `.`.
pub open spec fn current_segment() -> Seq<char> {
    seq!['.']
}

/// The raw segments of `s`: the pieces between its separators, empty ones
/// included. There is always at least one.
pub open spec fn split(s: Seq<char>) -> Seq<Seq<char>>
    decreases s.len(),
{
    if s.len() == 0 {
        seq![Seq::<char>::empty()]
    } else {
        let init = split(s.drop_last());
        if is_separator(s.last()) {
            init.push(Seq::<char>::empty())
        } else {
            init.drop_last().push(init.last().push(s.last()))
        }
    }
}

/// Whether a raw segment counts when paths are compared.
pub open spec fn is_kept(segment: Seq<char>) -> bool {
    segment.len() > 0 && segment != current_segment()
}

/// `is_kept` as a predicate value.
pub open spec fn kept() -> spec_fn(Seq<char>) -> bool {
    |segment: Seq<char>| is_kept(segment)
}

/// The segments of `s` that count: its raw segments without the empty ones
/// and without `.`.
pub open spec fn segments(s: Seq<char>) -> Seq<Seq<char>> {
    split(s).filter(kept())
}

/// Whether `s` starts at a file system's root: with a separator.
pub open spec fn is_absolute(s: Seq<char>) -> bool {
    s.len() > 0 && is_separator(s[0])
}

/// Whether one of the raw segments of `s` is `..`, whichever separators
/// stand around it.
pub open spec fn has_parent_ref(s: Seq<char>) -> bool {
    split(s).contains(parent_segment())
}

/// `name` joined onto `root`: it follows `root`, after a `/` unless `root`
/// is empty or already ends in one.
pub open spec fn joined(root: Seq<char>, name: Seq<char>) -> Seq<char> {
    if root.len() == 0 || root.last() == '/' {
        root + name
    } else {
        root + seq!['/'] + name
    }
}

/// Whether `path` is `root` or lies below it, segment by segment: both are
/// absolute or neither is, and the segments of `root` begin those of `path`.
pub open spec fn descends_from(path: Seq<char>, root: Seq<char>) -> bool {
    &&& is_absolute(path) == is_absolute(root)
    &&& segments(root).is_prefix_of(segments(path))
}

/// What sanitizing `name` against `root` yields: a name with a `..`
/// segment is rejected for it; an absolute name is rejected because it
/// would leave the root; any other name is approved as the root followed
/// by the name.
pub open spec fn sanitized(root: Seq<char>, name: Seq<char>) -> Result<Seq<char>, PathRejection> {
    if has_parent_ref(name) {
        Err(PathRejection::ParentReference)
    } else if is_absolute(name) {
        Err(PathRejection::EscapesDestination)
    } else {
        Ok(joined(root, name))
    }
}

/// Whether a raw segment names something: it is not empty, not `.` and not
/// `..`.
pub open spec fn is_normal_segment(segment: Seq<char>) -> bool {
    segment.len() > 0 && segment != current_segment() && segment != parent_segment()
}

/// Whether `name` can be the name of one file or directory: a single
/// segment that names something, without a separator in it.
pub open spec fn is_plain_name(name: Seq<char>) -> bool {
    is_normal_segment(name) && !name.contains('/') && !name.contains('\\')
}

/// Whether `path` is a relative path made only of segments that name
/// something: no empty segment, no `.`, no `..`, no leading `/`.
pub open spec fn is_clean_relative(path: Seq<char>) -> bool {
    forall|i: int| 0 <= i < split(path).len() ==> is_normal_segment(#[trigger] split(path)[i])
}

/// A child's path: its name below `base`, or the name alone at the top.
pub open spec fn child_path(base: Seq<char>, name: Seq<char>) -> Seq<char> {
    if base.len() == 0 {
        name
    } else {
        base + seq!['/'] + name
    }
}

/// Whether a name marks a directory: it ends in `/`, or it is empty and
/// so stands for the root of the tree.
pub open spec fn is_directory_name(name: Seq<char>) -> bool {
    name.len() == 0 || name.last() == '/'
}

/// Whether a name is one that packing gives to an entry: a clean relative
/// path, followed by `/` where it marks a directory.
pub open spec fn is_entry_name(name: Seq<char>) -> bool {
    ||| is_clean_relative(name)
    ||| (name.len() > 0 && name.last() == '/' && is_clean_relative(name.drop_last()))
}

/// The views of a list of character vectors.
pub open spec fn views(parts: Seq<Vec<char>>) -> Seq<Seq<char>> {
    parts.map_values(|p: Vec<char>| p@)
}

/// A string always has at least one raw segment.
pub proof fn lemma_split_nonempty(s: Seq<char>)
    ensures
        split(s).len() >= 1,
    decreases s.len(),
{
    if s.len() > 0 {
        lemma_split_nonempty(s.drop_last());
    }
}

/// Cutting `a/b` gives the raw segments of `a` followed by those of `b`.
pub proof fn lemma_split_around_separator(a: Seq<char>, b: Seq<char>)
    ensures
        split(a + seq!['/'] + b) == split(a) + split(b),
    decreases b.len(),
{
    let s = a + seq!['/'] + b;
    if b.len() == 0 {
        assert(s.drop_last() =~= a);
        assert(split(s) =~= split(a) + split(b));
    } else {
        let shorter = b.drop_last();
        assert(s.drop_last() =~= a + seq!['/'] + shorter);
        lemma_split_around_separator(a, shorter);
        lemma_split_nonempty(shorter);
        assert(split(s) =~= split(a) + split(b));
    }
}

/// A string without a separator is its own single raw segment.
pub proof fn lemma_split_of_plain(s: Seq<char>)
    requires
        !s.contains('/'),
        !s.contains('\\'),
    ensures
        split(s) == seq![s],
    decreases s.len(),
{
    if s.len() == 0 {
        assert(s =~= Seq::<char>::empty());
    } else {
        let shorter = s.drop_last();
        assert forall|k: int| 0 <= k < shorter.len() implies !is_separator(shorter[k]) by {
            assert(s[k] == shorter[k]);
            assert(s.contains(s[k]));
        }
        assert(!shorter.contains('/'));
        assert(!shorter.contains('\\'));
        lemma_split_of_plain(shorter);
        assert(s.contains(s.last()));
        assert(shorter.push(s.last()) =~= s);
        assert(split(s) =~= seq![s]);
    }
}

/// The first raw segment is empty exactly when the path is empty or starts
/// with a separator.
pub proof fn lemma_first_segment(s: Seq<char>)
    ensures
        split(s).len() >= 1,
        split(s)[0].len() == 0 <==> s.len() == 0 || is_separator(s[0]),
        s.len() > 0 && is_separator(s[0]) ==> split(s).len() >= 2,
    decreases s.len(),
{
    if s.len() > 0 {
        let shorter = s.drop_last();
        lemma_first_segment(shorter);
        if shorter.len() > 0 {
            assert(shorter[0] == s[0]);
        }
    }
}

/// The raw segments of a prefix of `s`, but for the last of them, are raw
/// segments of `s` itself.
proof fn lemma_split_prefix(s: Seq<char>, n: int)
    requires
        0 <= n <= s.len(),
    ensures
        split(s.take(n)).len() <= split(s).len(),
        forall|k: int|
            0 <= k < split(s.take(n)).len() - 1 ==> split(s)[k] == #[trigger] split(s.take(n))[k],
    decreases s.len() - n,
{
    if n == s.len() {
        assert(s.take(n) =~= s);
    } else {
        lemma_split_prefix(s, n + 1);
        assert(s.take(n + 1).drop_last() =~= s.take(n));
        lemma_split_nonempty(s.take(n));
        let shorter = split(s.take(n));
        let longer = split(s.take(n + 1));
        assert forall|k: int| 0 <= k < shorter.len() - 1 implies split(s)[k] == #[trigger] shorter[k] by {
            assert(longer[k] == shorter[k]);
        }
    }
}

/// A sequence with one more element contains a value exactly when the
/// sequence did or the new element is that value.
proof fn lemma_contains_after_push<A>(s: Seq<A>, last: A, x: A)
    ensures
        s.push(last).contains(x) <==> s.contains(x) || last == x,
{
    let t = s.push(last);
    if s.contains(x) {
        let k = choose|k: int| 0 <= k < s.len() && s[k] == x;
        assert(t[k] == x);
    }
    if last == x {
        assert(t[s.len() as int] == x);
    }
    if t.contains(x) {
        let k = choose|k: int| 0 <= k < t.len() && t[k] == x;
        if k < s.len() {
            assert(s[k] == x);
        }
    }
}

/// The empty path has no segment that counts.
pub proof fn lemma_segments_of_empty()
    ensures
        segments(Seq::<char>::empty()).len() == 0,
{
    reveal(Seq::filter);
    let one = seq![Seq::<char>::empty()];
    assert(one.drop_last().len() == 0);
    assert(one.drop_last().filter(kept()).len() == 0);
}

/// The segments of `a/b` that count are those of `a` followed by those of `b`.
pub proof fn lemma_segments_around_separator(a: Seq<char>, b: Seq<char>)
    ensures
        segments(a + seq!['/'] + b) == segments(a) + segments(b),
{
    lemma_split_around_separator(a, b);
    Seq::filter_distributes_over_add(split(a), split(b), kept());
}

/// A relative name joined onto any root lies below that root.
pub proof fn lemma_relative_name_stays_below(root: Seq<char>, name: Seq<char>)
    requires
        !is_absolute(name),
    ensures
        descends_from(joined(root, name), root),
{
    let path = joined(root, name);
    if root.len() == 0 {
        assert(path =~= name);
        lemma_segments_of_empty();
    } else if root.last() == '/' {
        let stem = root.drop_last();
        assert(root =~= stem + seq!['/'] + Seq::<char>::empty());
        assert(path =~= stem + seq!['/'] + name);
        lemma_segments_around_separator(stem, Seq::<char>::empty());
        lemma_segments_around_separator(stem, name);
        lemma_segments_of_empty();
        assert(segments(root) =~= segments(stem));
        assert(segments(path).subrange(0, segments(root).len() as int) =~= segments(root));
    } else {
        lemma_segments_around_separator(root, name);
        assert(segments(path).subrange(0, segments(root).len() as int) =~= segments(root));
    }
}

/// A name without a `..` segment that does not start with `/` is approved
/// under every root, as the root followed by the name, and what is
/// approved lies below the root.
pub proof fn lemma_clean_relative_name_is_approved(root: Seq<char>, name: Seq<char>)
    requires
        !has_parent_ref(name),
        !is_absolute(name),
    ensures
        sanitized(root, name) == Ok::<Seq<char>, PathRejection>(joined(root, name)),
        descends_from(joined(root, name), root),
{
    lemma_relative_name_stays_below(root, name);
}

/// The empty name is approved under every root and stands for the root
/// itself: the approved path has exactly the root's segments.
pub proof fn lemma_empty_name_is_the_root(root: Seq<char>)
    ensures
        sanitized(root, Seq::<char>::empty()) is Ok,
        segments(joined(root, Seq::<char>::empty())) == segments(root),
{
    let name = Seq::<char>::empty();
    assert(split(name) =~= seq![Seq::<char>::empty()]);
    assert(!has_parent_ref(name)) by {
        assert(split(name)[0].len() == 0);
        assert(parent_segment().len() == 2);
    }
    lemma_relative_name_stays_below(root, name);
    lemma_segments_of_empty();
    if root.len() == 0 || root.last() == '/' {
        assert(joined(root, name) =~= root);
    } else {
        lemma_segments_around_separator(root, name);
    }
}

/// A plain name below a clean relative path is a clean relative path.
pub proof fn lemma_child_path_is_clean(base: Seq<char>, name: Seq<char>)
    requires
        base.len() == 0 || is_clean_relative(base),
        is_plain_name(name),
    ensures
        is_clean_relative(child_path(base, name)),
{
    lemma_split_of_plain(name);
    if base.len() > 0 {
        lemma_split_around_separator(base, name);
    }
}

/// A clean relative path is not empty, is not absolute and has no `..`
/// segment; the same holds of it with a `/` at its end.
pub proof fn lemma_clean_path_is_harmless(path: Seq<char>)
    requires
        is_clean_relative(path),
    ensures
        path.len() > 0,
        !is_absolute(path),
        !has_parent_ref(path),
        !is_absolute(path.push('/')),
        !has_parent_ref(path.push('/')),
{
    lemma_first_segment(path);
    assert(is_normal_segment(split(path)[0]));
    let marked = path.push('/');
    assert(marked.drop_last() =~= path);
    assert(split(marked) =~= split(path).push(Seq::<char>::empty()));
    assert(marked[0] == path[0]);
    assert(parent_segment().len() == 2);
    if has_parent_ref(marked) {
        let k = choose|k: int| 0 <= k < split(marked).len() && split(marked)[k] == parent_segment();
        if k < split(path).len() {
            assert(is_normal_segment(split(path)[k]));
        }
    }
}

/// A name that packing gives to an entry is approved for extraction under
/// every root, as the root followed by the name.
pub proof fn lemma_entry_name_is_approved(root: Seq<char>, name: Seq<char>)
    requires
        is_entry_name(name),
    ensures
        sanitized(root, name) == Ok::<Seq<char>, PathRejection>(joined(root, name)),
        descends_from(joined(root, name), root),
{
    if is_clean_relative(name) {
        lemma_clean_path_is_harmless(name);
    } else {
        lemma_clean_path_is_harmless(name.drop_last());
        assert(name.drop_last().push('/') =~= name);
    }
    lemma_clean_relative_name_is_approved(root, name);
}

/// The characters of `s`, in order.
pub fn chars_of(s: &str) -> (v: Vec<char>)
    ensures
        v@ == s@,
{
    let mut v: Vec<char> = Vec::new();
    for c in it: s.chars()
        invariant
            it.seq() == s@,
            v@ == s@.take(it.index() as int),
    {
        v.push(c);
    }
    v
}

/// Whether two character vectors hold the same characters.
fn same_chars(a: &Vec<char>, b: &Vec<char>) -> (r: bool)
    ensures
        r == (a@ == b@),
{
    if a.len() != b.len() {
        return false;
    }
    let mut i: usize = 0;
    while i < a.len()
        invariant
            i <= a.len(),
            a.len() == b.len(),
            forall|k: int| 0 <= k < i ==> a@[k] == b@[k],
        decreases a.len() - i,
    {
        if a[i] != b[i] {
            return false;
        }
        i += 1;
    }
    assert(a@ =~= b@);
    true
}

/// Whether `part` is the segment `..`.
fn is_parent_part(part: &Vec<char>) -> (r: bool)
    ensures
        r == (part@ == parent_segment()),
{
    let r = part.len() == 2 && part[0] == '.' && part[1] == '.';
    proof {
        if r {
            assert(part@ =~= parent_segment());
        }
    }
    r
}

/// Whether `part` is a segment that counts when paths are compared.
fn is_kept_part(part: &Vec<char>) -> (r: bool)
    ensures
        r == is_kept(part@),
{
    if part.len() == 0 {
        false
    } else if part.len() == 1 && part[0] == '.' {
        assert(part@ =~= current_segment());
        false
    } else {
        true
    }
}

/// Whether `part` is a segment that names something.
fn is_normal_part(part: &Vec<char>) -> (r: bool)
    ensures
        r == is_normal_segment(part@),
{
    is_kept_part(part) && !is_parent_part(part)
}

/// Whether `path` starts at the file system's root.
fn starts_at_root(path: &Vec<char>) -> (r: bool)
    ensures
        r == is_absolute(path@),
{
    path.len() > 0 && (path[0] == '/' || path[0] == '\\')
}

/// One pass over a path: its segments that count, and whether one of its
/// raw segments is `..`.
fn scan(s: &Vec<char>) -> (r: (Vec<Vec<char>>, bool))
    ensures
        views(r.0@) == segments(s@),
        r.1 == has_parent_ref(s@),
{
    let mut out: Vec<Vec<char>> = Vec::new();
    let mut cur: Vec<char> = Vec::new();
    let mut parent: bool = false;
    let mut i: usize = 0;
    proof {
        assert(s@.take(0) =~= Seq::<char>::empty());
        reveal(Seq::filter);
        assert(split(s@.take(0)).drop_last() =~= Seq::<Seq<char>>::empty());
        assert(views(out@) =~= split(s@.take(0)).drop_last().filter(kept()));
    }
    while i < s.len()
        invariant
            i <= s.len(),
            split(s@.take(i as int)).len() >= 1,
            cur@ == split(s@.take(i as int)).last(),
            views(out@) == split(s@.take(i as int)).drop_last().filter(kept()),
            parent == split(s@.take(i as int)).drop_last().contains(parent_segment()),
        decreases s.len() - i,
    {
        let c = s[i];
        let ghost before = split(s@.take(i as int));
        let ghost after = split(s@.take(i + 1));
        proof {
            assert(s@.take(i + 1).drop_last() =~= s@.take(i as int));
            assert(s@.take(i + 1).last() == c);
            lemma_split_nonempty(s@.take(i + 1));
        }
        if c == '/' || c == '\\' {
            let keep = is_kept_part(&cur);
            let is_parent = is_parent_part(&cur);
            proof {
                assert(after =~= before.push(Seq::<char>::empty()));
                assert(after.drop_last() =~= before);
                assert(before =~= before.drop_last().push(before.last()));
                reveal(Seq::filter);
                assert(before.filter(kept()) == if is_kept(before.last()) {
                    before.drop_last().filter(kept()).push(before.last())
                } else {
                    before.drop_last().filter(kept())
                });
                lemma_contains_after_push(before.drop_last(), before.last(), parent_segment());
            }
            if is_parent {
                parent = true;
            }
            if keep {
                let ghost old_out = out@;
                out.push(cur);
                proof {
                    assert(views(out@) =~= views(old_out).push(before.last()));
                }
            }
            cur = Vec::new();
        } else {
            cur.push(c);
            proof {
                assert(after =~= before.drop_last().push(before.last().push(c)));
                assert(after.drop_last() =~= before.drop_last());
            }
        }
        i += 1;
    }
    let ghost all = split(s@);
    proof {
        assert(s@.take(s.len() as int) =~= s@);
        assert(all =~= all.drop_last().push(all.last()));
        reveal(Seq::filter);
        assert(all.filter(kept()) == if is_kept(all.last()) {
            all.drop_last().filter(kept()).push(all.last())
        } else {
            all.drop_last().filter(kept())
        });
        lemma_contains_after_push(all.drop_last(), all.last(), parent_segment());
    }
    let keep = is_kept_part(&cur);
    let is_parent = is_parent_part(&cur);
    if is_parent {
        parent = true;
    }
    if keep {
        let ghost old_out = out@;
        out.push(cur);
        proof {
            assert(views(out@) =~= views(old_out).push(all.last()));
        }
    }
    (out, parent)
}

/// Whether every raw segment of `s` names something.
fn all_segments_normal(s: &Vec<char>) -> (r: bool)
    ensures
        r == is_clean_relative(s@),
{
    let mut cur: Vec<char> = Vec::new();
    let mut i: usize = 0;
    proof {
        assert(s@.take(0) =~= Seq::<char>::empty());
    }
    while i < s.len()
        invariant
            i <= s.len(),
            split(s@.take(i as int)).len() >= 1,
            cur@ == split(s@.take(i as int)).last(),
            forall|k: int|
                0 <= k < split(s@.take(i as int)).len() - 1 ==> is_normal_segment(
                    #[trigger] split(s@.take(i as int))[k],
                ),
        decreases s.len() - i,
    {
        let c = s[i];
        let ghost before = split(s@.take(i as int));
        let ghost after = split(s@.take(i + 1));
        proof {
            assert(s@.take(i + 1).drop_last() =~= s@.take(i as int));
            assert(s@.take(i + 1).last() == c);
            lemma_split_nonempty(s@.take(i + 1));
            lemma_split_prefix(s@, i + 1);
        }
        if c == '/' || c == '\\' {
            if !is_normal_part(&cur) {
                proof {
                    assert(after =~= before.push(Seq::<char>::empty()));
                    assert(after[before.len() - 1] == before.last());
                    assert(!is_normal_segment(split(s@)[before.len() - 1]));
                }
                return false;
            }
            proof {
                assert(after =~= before.push(Seq::<char>::empty()));
            }
            cur = Vec::new();
        } else {
            cur.push(c);
            proof {
                assert(after =~= before.drop_last().push(before.last().push(c)));
            }
        }
        i += 1;
    }
    proof {
        assert(s@.take(s.len() as int) =~= s@);
    }
    is_normal_part(&cur)
}

/// Whether the segments `root` begin the segments `path`.
fn begins(root: &Vec<Vec<char>>, path: &Vec<Vec<char>>) -> (r: bool)
    ensures
        r == views(root@).is_prefix_of(views(path@)),
{
    if root.len() > path.len() {
        return false;
    }
    let mut i: usize = 0;
    while i < root.len()
        invariant
            i <= root.len(),
            root.len() <= path.len(),
            forall|k: int| 0 <= k < i ==> views(root@)[k] == views(path@)[k],
        decreases root.len() - i,
    {
        if !same_chars(&root[i], &path[i]) {
            proof {
                let head = views(path@).subrange(0, root.len() as int);
                assert(head[i as int] == views(path@)[i as int]);
            }
            return false;
        }
        i += 1;
    }
    assert(views(root@) =~= views(path@).subrange(0, root.len() as int));
    true
}

/// Whether one of the `/`-separated segments of `name` is `..`.
pub fn has_parent_reference(name: &str) -> (r: bool)
    ensures
        r == has_parent_ref(name@),
{
    let chars = chars_of(name);
    let (_, parent) = scan(&chars);
    parent
}

/// Joins `name` onto `root`: it follows `root`, after a `/` unless `root`
/// is empty or already ends in one.
pub fn join_path(root: &str, name: &str) -> (path: String)
    ensures
        path@ == joined(root@, name@),
{
    let root_chars = chars_of(root);
    let mut path = root.to_owned();
    if root_chars.len() > 0 && root_chars[root_chars.len() - 1] != '/' {
        proof {
            reveal_strlit("/");
            assert("/"@ =~= seq!['/']);
        }
        path.append("/");
    }
    path.append(name);
    path
}

/// Whether `path` starts at a file system's root: with `/` or `\`.
pub fn is_absolute_path(path: &str) -> (r: bool)
    ensures
        r == is_absolute(path@),
{
    let chars = chars_of(path);
    starts_at_root(&chars)
}

/// Whether `path` is `root` or lies below it, compared segment by segment.
pub fn is_within(path: &str, root: &str) -> (r: bool)
    ensures
        r == descends_from(path@, root@),
{
    let path_chars = chars_of(path);
    let root_chars = chars_of(root);
    if starts_at_root(&path_chars) != starts_at_root(&root_chars) {
        return false;
    }
    let (path_segments, _) = scan(&path_chars);
    let (root_segments, _) = scan(&root_chars);
    begins(&root_segments, &path_segments)
}

/// Approves or rejects an archive entry's name for extraction below
/// `dest_dir`.
///
/// A name with a `..` segment is rejected whatever the root, and so is an
/// absolute name. Any other name is joined onto the root and returned
/// unchanged; the joined path is tested once more to lie below the root,
/// segment by segment, a test that is proved never to fail. The empty
/// name is approved and stands for the root itself.
pub fn sanitize_path(dest_dir: &str, name: &str) -> (r: Result<String, PathRejection>)
    ensures
        match r {
            Ok(path) => sanitized(dest_dir@, name@) == Ok::<Seq<char>, PathRejection>(path@),
            Err(rejection) => sanitized(dest_dir@, name@) == Err::<Seq<char>, PathRejection>(
                rejection,
            ),
        },
        has_parent_ref(name@) ==> r == Err::<String, PathRejection>(
            PathRejection::ParentReference,
        ),
        r matches Ok(path) ==> descends_from(path@, dest_dir@),
        r is Ok <==> !has_parent_ref(name@) && !is_absolute(name@),
{
    if has_parent_reference(name) {
        return Err(PathRejection::ParentReference);
    }
    if is_absolute_path(name) {
        return Err(PathRejection::EscapesDestination);
    }
    let path = join_path(dest_dir, name);
    proof {
        lemma_relative_name_stays_below(dest_dir@, name@);
    }
    if is_within(path.as_str(), dest_dir) {
        Ok(path)
    } else {
        Err(PathRejection::EscapesDestination)
    }
}

/// Whether `name` can be the name of one file or directory: not empty, not
/// `.`, not `..`, and without `/` or `\`.
pub fn is_plain(name: &str) -> (r: bool)
    ensures
        r == is_plain_name(name@),
{
    let chars = chars_of(name);
    let mut i: usize = 0;
    while i < chars.len()
        invariant
            i <= chars.len(),
            chars@ == name@,
            forall|k: int| 0 <= k < i ==> !is_separator(chars@[k]),
        decreases chars.len() - i,
    {
        if chars[i] == '/' || chars[i] == '\\' {
            assert(is_separator(chars@[i as int]));
            return false;
        }
        i += 1;
    }
    is_normal_part(&chars)
}

/// Whether `path` is a relative path whose every segment names something.
pub fn is_clean(path: &str) -> (r: bool)
    ensures
        r == is_clean_relative(path@),
{
    let chars = chars_of(path);
    all_segments_normal(&chars)
}

/// Whether `name` marks a directory.
pub fn names_directory(name: &str) -> (r: bool)
    ensures
        r == is_directory_name(name@),
{
    let chars = chars_of(name);
    chars.len() == 0 || chars[chars.len() - 1] == '/'
}

/// Whether `name` is one that packing gives to an entry.
pub fn is_entry_path(name: &str) -> (r: bool)
    ensures
        r == is_entry_name(name@),
{
    let mut chars = chars_of(name);
    if all_segments_normal(&chars) {
        return true;
    }
    if chars.len() > 0 && chars[chars.len() - 1] == '/' {
        chars.pop();
        assert(chars@ =~= name@.drop_last());
        all_segments_normal(&chars)
    } else {
        false
    }
}

/// The path of the child `name` below `base`; at the top, where `base` is
/// empty, the name alone.
pub fn join_child(base: &str, name: &str) -> (path: String)
    ensures
        path@ == child_path(base@, name@),
{
    if base.unicode_len() == 0 {
        name.to_owned()
    } else {
        let mut path = base.to_owned();
        proof {
            reveal_strlit("/");
            assert("/"@ =~= seq!['/']);
        }
        path.append("/");
        path.append(name);
        path
    }
}

} // verus!
