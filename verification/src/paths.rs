//! Relative-path normalisation and containment checks (Unix path syntax:
//! `/` is the only separator).
//!
//! Paths are modelled the way `std::path::Path::components` sees them: a
//! leading `/` is the root, empty pieces and `.` pieces in the middle are not
//! components, `..` is the parent directory and everything else is a normal
//! component.
use vstd::prelude::*;
use crate::text::{
    append_chars, chars_eq, chars_of, copy_chars, join, join_exec, lemma_split_nonempty, split,
    split_exec, starts_with, starts_with_chars, string_of, views,
};

verus! {

broadcast use vstd::seq_lib::group_seq_properties;

/// The separator as a one-character sequence.
pub open spec fn slash() -> Seq<char> {
    seq!['/']
}

/// The piece `.`
pub open spec fn dot() -> Seq<char> {
    seq!['.']
}

/// The piece `..`
pub open spec fn dot_dot() -> Seq<char> {
    seq!['.', '.']
}

/// A piece of a split path that is a normal component.
pub open spec fn is_normal_part(g: Seq<char>) -> bool {
    g.len() > 0 && g != dot() && g != dot_dot()
}

/// A piece that `Path::components` does not report at all (empty or `.`).
pub open spec fn is_skipped_part(g: Seq<char>) -> bool {
    g.len() == 0 || g == dot()
}

/// Filter predicate keeping the pieces that are components.
pub open spec fn not_skipped() -> spec_fn(Seq<char>) -> bool {
    |g: Seq<char>| !is_skipped_part(g)
}

/// The path is absolute (`RootDir` is its first component).
pub open spec fn is_absolute(p: Seq<char>) -> bool {
    p.len() > 0 && p[0] == '/'
}

/// The non-root components of a path: its `/`-separated pieces without the
/// empty ones and without `.`.
pub open spec fn path_parts(p: Seq<char>) -> Seq<Seq<char>> {
    split(p, '/').filter(not_skipped())
}

/// Result of `normalize_relative_path` on a path given as characters:
/// `None` for absolute paths, paths with a `..` component and paths with no
/// normal component; otherwise the normal components joined with `/`.
pub open spec fn spec_normalize_relative_path(rel: Seq<char>) -> Option<Seq<char>> {
    let parts = path_parts(rel);
    if is_absolute(rel) || parts.contains(dot_dot()) || parts.len() == 0 {
        None
    } else {
        Some(join(parts, slash()))
    }
}

/// `Path::join` of a relative path onto `base`: a `/` is inserted unless
/// `base` is empty or already ends with one.
pub open spec fn spec_join_path(base: Seq<char>, rel: Seq<char>) -> Seq<char> {
    if base.len() == 0 || base.last() == '/' {
        base + rel
    } else {
        base + slash() + rel
    }
}

/// Result of `safe_join`.
pub open spec fn spec_safe_join(base: Seq<char>, rel: Seq<char>) -> Option<Seq<char>> {
    match spec_normalize_relative_path(rel) {
        Some(n) => Some(spec_join_path(base, n)),
        None => None,
    }
}

/// The components of a path, as `Path::components` lists them: `/` stands
/// for the root, `.` for a leading current-directory component, and the
/// other entries are the normal and `..` components.
pub open spec fn components(p: Seq<char>) -> Seq<Seq<char>> {
    let head = if is_absolute(p) {
        seq![slash()]
    } else if p == dot() || starts_with(p, seq!['.', '/']) {
        seq![dot()]
    } else {
        Seq::<Seq<char>>::empty()
    };
    head + path_parts(p)
}

/// `Path::starts_with`: the components of `base` are a prefix of those of `path`.
pub open spec fn spec_path_starts_with(path: Seq<char>, base: Seq<char>) -> bool {
    let a = components(path);
    let b = components(base);
    b.len() <= a.len() && a.take(b.len() as int) == b
}

/// Lifts an optional string to its character model.
pub open spec fn opt_chars(o: Option<String>) -> Option<Seq<char>> {
    match o {
        Some(s) => Some(s@),
        None => None,
    }
}

// ---------------------------------------------------------------------------
// Lemmas
// ---------------------------------------------------------------------------

/// No piece of `split(s, c)` contains `c`.
pub proof fn lemma_split_pieces_free(s: Seq<char>, c: char)
    ensures
        forall|i: int| 0 <= i < split(s, c).len() ==> !(#[trigger] split(s, c)[i]).contains(c),
    decreases s.len(),
{
    lemma_split_nonempty(s, c);
    if s.len() > 0 {
        lemma_split_pieces_free(s.drop_last(), c);
        lemma_split_nonempty(s.drop_last(), c);
        let init = split(s.drop_last(), c);
        if s.last() != c {
            assert forall|i: int| 0 <= i < split(s, c).len() implies !(
            #[trigger] split(s, c)[i]).contains(c) by {
                if i == init.len() - 1 {
                    let p = init.last().push(s.last());
                    assert(split(s, c)[i] == p);
                    if p.contains(c) {
                        let k = choose|k: int| 0 <= k < p.len() && p[k] == c;
                        assert(init.last()[k] == c);
                    }
                }
            }
        } else {
            assert forall|i: int| 0 <= i < split(s, c).len() implies !(
            #[trigger] split(s, c)[i]).contains(c) by {
                if i < init.len() {
                    assert(split(s, c)[i] == init[i]);
                }
            }
        }
    }
}

/// A sequence without `c` splits into itself.
pub proof fn lemma_split_free(s: Seq<char>, c: char)
    requires
        !s.contains(c),
    ensures
        split(s, c) == seq![s],
    decreases s.len(),
{
    if s.len() == 0 {
        assert(split(s, c) =~= seq![s]);
    } else {
        assert(!s.drop_last().contains(c)) by {
            if s.drop_last().contains(c) {
                let k = choose|k: int| 0 <= k < s.drop_last().len() && s.drop_last()[k] == c;
                assert(s[k] == c);
            }
        }
        lemma_split_free(s.drop_last(), c);
        assert(s.last() != c) by {
            assert(s[s.len() - 1] == s.last());
        }
        assert(s.drop_last().push(s.last()) =~= s);
        assert(split(s, c) =~= seq![s]);
    }
}

/// Splitting across one separator concatenates the pieces of both sides.
pub proof fn lemma_split_concat(a: Seq<char>, b: Seq<char>, c: char)
    ensures
        split(a + seq![c] + b, c) == split(a, c) + split(b, c),
    decreases b.len(),
{
    let s = a + seq![c] + b;
    if b.len() == 0 {
        assert(s.drop_last() =~= a);
        assert(split(s, c) =~= split(a, c) + split(b, c));
    } else {
        let bi = b.drop_last();
        assert(s.drop_last() =~= a + seq![c] + bi);
        lemma_split_concat(a, bi, c);
        lemma_split_nonempty(bi, c);
        if b.last() == c {
            assert(split(s, c) =~= split(a, c) + split(b, c));
        } else {
            let init = split(a, c) + split(bi, c);
            assert(split(s, c) == init.update(init.len() - 1, init.last().push(s.last())));
            assert(split(s, c) =~= split(a, c) + split(b, c));
        }
    }
}

/// Joining with `sep` and splitting again gives the pieces back, when they
/// are free of the separator.
pub proof fn lemma_split_join(parts: Seq<Seq<char>>, c: char)
    requires
        parts.len() > 0,
        forall|i: int| 0 <= i < parts.len() ==> !(#[trigger] parts[i]).contains(c),
    ensures
        split(join(parts, seq![c]), c) == parts,
    decreases parts.len(),
{
    if parts.len() == 1 {
        assert(!parts[0].contains(c));
        lemma_split_free(parts[0], c);
        assert(seq![parts[0]] =~= parts);
    } else {
        let init = parts.drop_last();
        assert forall|i: int| 0 <= i < init.len() implies !(#[trigger] init[i]).contains(c) by {
            assert(init[i] == parts[i]);
        }
        lemma_split_join(init, c);
        assert(!parts.last().contains(c)) by {
            assert(parts.last() == parts[parts.len() - 1]);
        }
        lemma_split_free(parts.last(), c);
        lemma_split_concat(join(init, seq![c]), parts.last(), c);
        assert(join(parts, seq![c]) == join(init, seq![c]) + seq![c] + parts.last());
        assert(init + seq![parts.last()] =~= parts);
    }
}

/// A join of pieces starts with the first piece.
pub proof fn lemma_join_starts(parts: Seq<Seq<char>>, sep: Seq<char>)
    requires
        parts.len() > 0,
    ensures
        starts_with(join(parts, sep), parts[0]),
    decreases parts.len(),
{
    if parts.len() > 1 {
        let init = parts.drop_last();
        lemma_join_starts(init, sep);
        let j = join(init, sep) + sep + parts.last();
        assert(j.subrange(0, parts[0].len() as int) =~= join(init, sep).subrange(
            0,
            parts[0].len() as int,
        ));
    }
}

/// Filtering a sequence whose elements all pass keeps it unchanged.
pub proof fn lemma_filter_all(s: Seq<Seq<char>>, pred: spec_fn(Seq<char>) -> bool)
    requires
        forall|i: int| 0 <= i < s.len() ==> pred(#[trigger] s[i]),
    ensures
        s.filter(pred) == s,
    decreases s.len(),
{
    reveal(Seq::filter);
    if s.len() > 0 {
        lemma_filter_all(s.drop_last(), pred);
        assert(pred(s[s.len() - 1]));
        assert(s.drop_last().push(s.last()) =~= s);
    }
}

/// The components kept by `path_parts` are free of `/` and are not skipped.
pub proof fn lemma_path_parts(p: Seq<char>)
    ensures
        forall|i: int|
            0 <= i < path_parts(p).len() ==> !(#[trigger] path_parts(p)[i]).contains('/')
                && !is_skipped_part(path_parts(p)[i]),
{
    let segs = split(p, '/');
    lemma_split_pieces_free(p, '/');
    assert forall|i: int| 0 <= i < path_parts(p).len() implies !(
    #[trigger] path_parts(p)[i]).contains('/') && !is_skipped_part(path_parts(p)[i]) by {
        let g = path_parts(p)[i];
        segs.lemma_filter_pred(not_skipped(), i);
        segs.lemma_filter_contains_rev(not_skipped(), g);
        assert(path_parts(p).contains(g));
        let k = choose|k: int| 0 <= k < segs.len() && segs[k] == g;
        assert(!segs[k].contains('/'));
    }
}

// ---------------------------------------------------------------------------
// Laws
// ---------------------------------------------------------------------------

/// Normalisation is idempotent: a normalised path normalises to itself.
/// In particular it is relative, has no `..`, `.` or empty component.
pub proof fn law_normalize_idempotent(rel: Seq<char>)
    requires
        spec_normalize_relative_path(rel) is Some,
    ensures
        spec_normalize_relative_path(spec_normalize_relative_path(rel)->0)
            == spec_normalize_relative_path(rel),
        ({
            let n = spec_normalize_relative_path(rel)->0;
            &&& !is_absolute(n)
            &&& path_parts(n) == split(n, '/')
            &&& !split(n, '/').contains(dot_dot())
        }),
{
    let parts = path_parts(rel);
    let n = join(parts, slash());
    lemma_path_parts(rel);
    lemma_split_join(parts, '/');
    assert(split(n, '/') == parts);
    lemma_filter_all(parts, not_skipped());
    assert(path_parts(n) == parts);
    lemma_join_starts(parts, slash());
    assert(parts[0].len() > 0);
    assert(n[0] == parts[0][0]);
    assert(!parts[0].contains('/'));
    assert(n[0] != '/') by {
        assert(parts[0][0] != '/') by {
            if parts[0][0] == '/' {
                assert(parts[0].contains('/'));
            }
        }
    }
}

/// `safe_join` never leaves `base`: the result is `base`, a separator when
/// needed, and a normalised relative path (no `..`, not absolute).
pub proof fn law_safe_join_stays_inside(base: Seq<char>, rel: Seq<char>)
    requires
        spec_safe_join(base, rel) is Some,
    ensures
        ({
            let p = spec_safe_join(base, rel)->0;
            let n = spec_normalize_relative_path(rel)->0;
            &&& starts_with(p, base)
            &&& p == spec_join_path(base, n)
            &&& spec_normalize_relative_path(n) == Some(n)
            &&& !split(n, '/').contains(dot_dot())
        }),
{
    law_normalize_idempotent(rel);
    let p = spec_safe_join(base, rel)->0;
    assert(p.subrange(0, base.len() as int) =~= base);
}

// ---------------------------------------------------------------------------
// Executable functions
// ---------------------------------------------------------------------------

/// Whether a split piece is skipped by `Path::components`.
fn is_skipped_exec(g: &[char]) -> (r: bool)
    ensures
        r == is_skipped_part(g@),
{
    let d = vec!['.'];
    assert(d@ =~= dot());
    g.len() == 0 || chars_eq(g, d.as_slice())
}

/// The components (without root) of a path, as character vectors.
fn path_parts_exec(p: &[char]) -> (r: Vec<Vec<char>>)
    ensures
        views(r@) == path_parts(p@),
{
    let segs = split_exec(p, '/');
    let mut r: Vec<Vec<char>> = Vec::new();
    let mut i: usize = 0;
    while i < segs.len()
        invariant
            i <= segs@.len(),
            views(segs@) == split(p@, '/'),
            views(r@) == views(segs@).take(i as int).filter(not_skipped()),
        decreases segs@.len() - i,
    {
        let ghost old_r = r@;
        let ghost g = views(segs@)[i as int];
        proof {
            assert(views(segs@).take(i + 1) =~= views(segs@).take(i as int).push(g));
            views(segs@).take(i as int).lemma_filter_push(g, not_skipped());
        }
        if !is_skipped_exec(segs[i].as_slice()) {
            let piece = copy_chars(segs[i].as_slice());
            r.push(piece);
            assert(views(r@) =~= views(old_r).push(g));
        }
        i = i + 1;
    }
    assert(views(segs@).take(segs@.len() as int) =~= views(segs@));
    r
}

/// Whether a list of pieces contains `..`.
fn contains_dot_dot(parts: &Vec<Vec<char>>) -> (r: bool)
    ensures
        r == views(parts@).contains(dot_dot()),
{
    let dd = vec!['.', '.'];
    assert(dd@ =~= dot_dot());
    let mut i: usize = 0;
    while i < parts.len()
        invariant
            i <= parts@.len(),
            dd@ == dot_dot(),
            forall|j: int| 0 <= j < i ==> views(parts@)[j] != dot_dot(),
        decreases parts@.len() - i,
    {
        if chars_eq(parts[i].as_slice(), dd.as_slice()) {
            assert(views(parts@)[i as int] == dot_dot());
            return true;
        }
        i = i + 1;
    }
    false
}

/// Normalisation of a path given as characters.
pub fn normalize_chars(rel: &[char]) -> (r: Option<Vec<char>>)
    ensures
        match r {
            Some(v) => spec_normalize_relative_path(rel@) == Some(v@),
            None => spec_normalize_relative_path(rel@) is None,
        },
{
    if rel.len() > 0 && rel[0] == '/' {
        return None;
    }
    let parts = path_parts_exec(rel);
    if parts.len() == 0 || contains_dot_dot(&parts) {
        return None;
    }
    let sep = vec!['/'];
    assert(sep@ =~= slash());
    let joined = join_exec(&parts, sep.as_slice());
    Some(joined)
}

/// Normalize a frontend-provided relative path and reject anything that can
/// escape the instance root.
pub fn normalize_relative_path(rel_path: &str) -> (r: Option<String>)
    ensures
        opt_chars(r) == spec_normalize_relative_path(rel_path@),
{
    let rel = chars_of(rel_path);
    match normalize_chars(rel.as_slice()) {
        Some(v) => Some(string_of(v.as_slice())),
        None => None,
    }
}

/// `Path::join` of a relative path onto `base`, on characters.
pub fn join_path_chars(base: &[char], rel: &[char]) -> (r: Vec<char>)
    ensures
        r@ == spec_join_path(base@, rel@),
{
    let mut r = copy_chars(base);
    if base.len() > 0 && base[base.len() - 1] != '/' {
        r.push('/');
    }
    append_chars(&mut r, rel);
    r
}

/// Join a normalised `rel` onto `base`; `None` when `rel` could escape `base`.
pub fn safe_join(base: &str, rel: &str) -> (r: Option<String>)
    ensures
        opt_chars(r) == spec_safe_join(base@, rel@),
{
    let b = chars_of(base);
    let rc = chars_of(rel);
    match normalize_chars(rc.as_slice()) {
        Some(n) => {
            let j = join_path_chars(b.as_slice(), n.as_slice());
            Some(string_of(j.as_slice()))
        },
        None => None,
    }
}

/// The components of a path, as character vectors.
fn components_exec(p: &[char]) -> (r: Vec<Vec<char>>)
    ensures
        views(r@) == components(p@),
{
    let mut r: Vec<Vec<char>> = Vec::new();
    let dot_slash = vec!['.', '/'];
    let d = vec!['.'];
    assert(dot_slash@ =~= seq!['.', '/']);
    assert(d@ =~= dot());
    if p.len() > 0 && p[0] == '/' {
        let root = vec!['/'];
        assert(root@ =~= slash());
        r.push(root);
        assert(views(r@) =~= seq![slash()]);
    } else if chars_eq(p, d.as_slice()) || starts_with_chars(p, dot_slash.as_slice()) {
        let cur = vec!['.'];
        assert(cur@ =~= dot());
        r.push(cur);
        assert(views(r@) =~= seq![dot()]);
    } else {
        assert(views(r@) =~= Seq::<Seq<char>>::empty());
    }
    let ghost head = views(r@);
    let ghost hr = r@;
    let mut rest = path_parts_exec(p);
    let ghost tail = views(rest@);
    let ghost rr = rest@;
    r.append(&mut rest);
    assert(r@ == hr + rr);
    assert(views(r@) =~= head + tail);
    r
}

/// Whether `a` starts with the pieces of `b`.
fn pieces_prefix(a: &Vec<Vec<char>>, b: &Vec<Vec<char>>) -> (r: bool)
    ensures
        r == (views(b@).len() <= views(a@).len() && views(a@).take(views(b@).len() as int)
            == views(b@)),
{
    if b.len() > a.len() {
        return false;
    }
    let mut i: usize = 0;
    while i < b.len()
        invariant
            b@.len() <= a@.len(),
            i <= b@.len(),
            forall|j: int| 0 <= j < i ==> views(a@)[j] == views(b@)[j],
        decreases b@.len() - i,
    {
        if !chars_eq(a[i].as_slice(), b[i].as_slice()) {
            assert(views(a@).take(views(b@).len() as int)[i as int] != views(b@)[i as int]);
            return false;
        }
        i = i + 1;
    }
    assert(views(a@).take(views(b@).len() as int) =~= views(b@));
    true
}

/// `Path::starts_with`: whether `path` lies at or under `base`, compared
/// component by component.
pub fn is_within_root(path: &str, base: &str) -> (r: bool)
    ensures
        r == spec_path_starts_with(path@, base@),
{
    let p = chars_of(path);
    let b = chars_of(base);
    let pc = components_exec(p.as_slice());
    let bc = components_exec(b.as_slice());
    pieces_prefix(&pc, &bc)
}

/// The selected paths that are kept, each as its normalised relative path
/// and the file under `root` it names; paths that could escape `root` are
/// dropped. Order is kept.
pub open spec fn spec_selected_files(root: Seq<char>, sel: Seq<Seq<char>>) -> Seq<
    (Seq<char>, Seq<char>),
>
    decreases sel.len(),
{
    if sel.len() == 0 {
        Seq::<(Seq<char>, Seq<char>)>::empty()
    } else {
        let prev = spec_selected_files(root, sel.drop_last());
        match spec_normalize_relative_path(sel.last()) {
            Some(n) => prev.push((n, spec_join_path(root, n))),
            None => prev,
        }
    }
}

/// Whether a selected file is exported: it is a file (its canonical path
/// is given) and that canonical path lies within the canonical instance root.
pub fn keep_selected_file(canonical_file: &Option<String>, canonical_root: &str) -> (r: bool)
    ensures
        r == (canonical_file matches Some(c) && spec_path_starts_with(c@, canonical_root@)),
{
    match canonical_file {
        Some(c) => is_within_root(c.as_str(), canonical_root),
        None => false,
    }
}

/// The character views of a list of string pairs.
pub open spec fn pair_views(v: Seq<(String, String)>) -> Seq<(Seq<char>, Seq<char>)> {
    v.map_values(|p: (String, String)| (p.0@, p.1@))
}

/// The character views of a list of strings.
pub open spec fn str_views(v: Seq<String>) -> Seq<Seq<char>> {
    v.map_values(|s: String| s@)
}

/// Convert selected relative paths into safe paths under the instance root:
/// each kept path comes with the file it names under `instance_path`. The
/// caller keeps the pairs whose file exists and whose canonical form lies
/// within the canonical root (`is_within_root`).
pub fn selected_file_paths(instance_path: &str, selected_files: &Vec<String>) -> (r: Vec<
    (String, String),
>)
    ensures
        pair_views(r@) == spec_selected_files(instance_path@, str_views(selected_files@)),
{
    let root = chars_of(instance_path);
    let ghost sel = str_views(selected_files@);
    let mut r: Vec<(String, String)> = Vec::new();
    let mut i: usize = 0;
    while i < selected_files.len()
        invariant
            i <= selected_files@.len(),
            sel == str_views(selected_files@),
            root@ == instance_path@,
            pair_views(r@) == spec_selected_files(instance_path@, sel.take(i as int)),
        decreases selected_files@.len() - i,
    {
        assert(sel.take(i + 1).drop_last() =~= sel.take(i as int));
        assert(sel.take(i + 1).last() == selected_files@[i as int]@);
        let rel = chars_of(selected_files[i].as_str());
        if let Some(n) = normalize_chars(rel.as_slice()) {
            let abs = join_path_chars(root.as_slice(), n.as_slice());
            let ghost old = r@;
            r.push((string_of(n.as_slice()), string_of(abs.as_slice())));
            assert(pair_views(r@) =~= pair_views(old).push((n@, abs@)));
        }
        i = i + 1;
    }
    assert(sel.take(selected_files@.len() as int) =~= sel);
    r
}

/// Every selected file kept lies under the root: its path is the root
/// joined with a normalised relative path (not absolute, no `..`).
pub proof fn law_selected_files_inside(root: Seq<char>, sel: Seq<Seq<char>>)
    ensures
        forall|i: int|
            0 <= i < spec_selected_files(root, sel).len() ==> {
                let (n, p) = #[trigger] spec_selected_files(root, sel)[i];
                &&& p == spec_join_path(root, n)
                &&& starts_with(p, root)
                &&& spec_normalize_relative_path(n) == Some(n)
                &&& !split(n, '/').contains(dot_dot())
            },
    decreases sel.len(),
{
    if sel.len() > 0 {
        law_selected_files_inside(root, sel.drop_last());
        let prev = spec_selected_files(root, sel.drop_last());
        let cur = spec_selected_files(root, sel);
        assert forall|i: int| 0 <= i < cur.len() implies {
            let (n, p) = #[trigger] cur[i];
            &&& p == spec_join_path(root, n)
            &&& starts_with(p, root)
            &&& spec_normalize_relative_path(n) == Some(n)
            &&& !split(n, '/').contains(dot_dot())
        } by {
            if i < prev.len() {
                assert(cur[i] == prev[i]);
            } else {
                law_safe_join_stays_inside(root, sel.last());
            }
        }
    }
}

} // verus!
