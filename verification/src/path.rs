//! Path arithmetic on '/'-separated paths: joining a segment onto a path,
//! and reading the extension of the file a path names.

use vstd::prelude::*;

use crate::text::{chars_of, push_char};

verus! {

/// `base` with `seg` pushed onto it, as `PathBuf::push` does on Unix: an
/// absolute `seg` replaces `base`; otherwise a '/' is put between them when
/// `base` is not empty and does not already end with one.
pub open spec fn path_push(base: Seq<char>, seg: Seq<char>) -> Seq<char> {
    if seg.len() > 0 && seg[0] == '/' {
        seg
    } else if base.len() > 0 && base.last() != '/' {
        base + seq!['/'] + seg
    } else {
        base + seg
    }
}

/// The characters after the last '/' of `p` (all of `p` when it has none).
pub open spec fn trailing_segment(p: Seq<char>) -> Seq<char>
    decreases p.len(),
{
    if p.len() == 0 || p.last() == '/' {
        seq![]
    } else {
        trailing_segment(p.drop_last()).push(p.last())
    }
}

/// The name of the file a path names, as `Path::file_name` gives it on
/// Unix: its last component, after trailing '/' and "." components are
/// passed over; nothing when that component is ".." or there is none.
pub open spec fn file_name(p: Seq<char>) -> Option<Seq<char>>
    decreases p.len(),
{
    if p.len() == 0 {
        None
    } else if p.last() == '/' {
        file_name(p.drop_last())
    } else if trailing_segment(p) == seq!['.'] {
        file_name(p.drop_last())
    } else if trailing_segment(p) == seq!['.', '.'] {
        None
    } else {
        Some(trailing_segment(p))
    }
}

/// The extension of a file name: the characters after its last '.';
/// nothing when it has no '.', or its only '.' is its first character.
pub open spec fn extension_of(name: Seq<char>) -> Option<Seq<char>>
    decreases name.len(),
{
    if name.len() == 0 {
        None
    } else if name.last() == '.' {
        if name.len() == 1 {
            None
        } else {
            Some(seq![])
        }
    } else {
        match extension_of(name.drop_last()) {
            Some(e) => Some(e.push(name.last())),
            None => None,
        }
    }
}

/// The extension of the file a path names, as `Path::extension` gives it
/// on Unix.
pub open spec fn path_extension(p: Seq<char>) -> Option<Seq<char>> {
    match file_name(p) {
        Some(name) => extension_of(name),
        None => None,
    }
}

/// The trailing segment of a path holds no '/'.
pub proof fn lemma_trailing_segment_no_separator(p: Seq<char>)
    ensures
        !trailing_segment(p).contains('/'),
        trailing_segment(p).len() <= p.len(),
        trailing_segment(p) == p.subrange(p.len() - trailing_segment(p).len(), p.len() as int),
    decreases p.len(),
{
    if p.len() > 0 && p.last() != '/' {
        lemma_trailing_segment_no_separator(p.drop_last());
        let t = trailing_segment(p.drop_last());
        assert(p.subrange(p.len() - t.len() - 1, p.len() as int) == t.push(p.last()));
    }
}

/// A name without '/' is the trailing segment of a path that ends with it
/// right after a '/' (or at the start).
pub proof fn lemma_trailing_segment_of_name(dir: Seq<char>, name: Seq<char>)
    requires
        dir.len() == 0 || dir.last() == '/',
        !name.contains('/'),
    ensures
        trailing_segment(dir + name) == name,
    decreases name.len(),
{
    if name.len() == 0 {
        assert(dir + name == dir);
    } else {
        assert((dir + name).drop_last() == dir + name.drop_last());
        assert((dir + name).last() == name.last());
        assert(name.last() != '/') by {
            assert(name[name.len() - 1] == name.last());
        }
        assert forall|c: char| name.drop_last().contains(c) implies name.contains(c) by {
            let i = choose|i: int| 0 <= i < name.drop_last().len() && name.drop_last()[i] == c;
            assert(name[i] == c);
        }
        lemma_trailing_segment_of_name(dir, name.drop_last());
        assert(name.drop_last().push(name.last()) == name);
    }
}

/// The file that `dir` followed by a plain name names is that name.
pub proof fn lemma_file_name_of_name(dir: Seq<char>, name: Seq<char>)
    requires
        dir.len() == 0 || dir.last() == '/',
        name.len() > 0,
        !name.contains('/'),
        name != seq!['.'],
        name != seq!['.', '.'],
    ensures
        file_name(dir + name) == Some(name),
{
    lemma_trailing_segment_of_name(dir, name);
    assert((dir + name).last() == name.last());
    assert(name.last() != '/') by {
        assert(name[name.len() - 1] == name.last());
    }
}

/// The extension of a name ending with '.' and characters other than '.'
/// is those characters, when something comes before the '.'.
pub proof fn lemma_extension_after_dot(stem: Seq<char>, ext: Seq<char>)
    requires
        stem.len() > 0,
        !ext.contains('.'),
    ensures
        extension_of(stem + seq!['.'] + ext) == Some(ext),
    decreases ext.len(),
{
    let name = stem + seq!['.'] + ext;
    if ext.len() == 0 {
        assert(name.last() == '.');
    } else {
        assert(name.drop_last() == stem + seq!['.'] + ext.drop_last());
        assert(name.last() == ext.last());
        assert(ext.last() != '.') by {
            assert(ext[ext.len() - 1] == ext.last());
        }
        assert forall|c: char| ext.drop_last().contains(c) implies ext.contains(c) by {
            let i = choose|i: int| 0 <= i < ext.drop_last().len() && ext.drop_last()[i] == c;
            assert(ext[i] == c);
        }
        lemma_extension_after_dot(stem, ext.drop_last());
        assert(ext.drop_last().push(ext.last()) == ext);
    }
}

/// An extension holds no '.', and is made of characters of the name.
pub proof fn lemma_extension_chars(name: Seq<char>)
    ensures
        extension_of(name) matches Some(e) ==> !e.contains('.') && forall|c: char|
            e.contains(c) ==> name.contains(c),
    decreases name.len(),
{
    if name.len() > 0 && name.last() != '.' {
        lemma_extension_chars(name.drop_last());
        if let Some(e) = extension_of(name.drop_last()) {
            let e2 = e.push(name.last());
            assert(name.last() == name[name.len() - 1]);
            assert forall|c: char| e2.contains(c) implies name.contains(c) && c != '.' by {
                let i = choose|i: int| 0 <= i < e2.len() && e2[i] == c;
                if i < e.len() {
                    assert(e.contains(c));
                    assert(name.drop_last().contains(c));
                    let j = choose|j: int| 0 <= j < name.drop_last().len() && name.drop_last()[j] == c;
                    assert(name[j] == c);
                } else {
                    assert(c == name.last());
                }
            }
        }
    }
}

/// The extension of the file a path names holds neither '.' nor '/'.
pub proof fn lemma_path_extension_chars(p: Seq<char>)
    ensures
        path_extension(p) matches Some(e) ==> !e.contains('.') && !e.contains('/'),
    decreases p.len(),
{
    if let Some(name) = file_name(p) {
        lemma_file_name_no_separator(p);
        lemma_extension_chars(name);
    }
}

/// The name of the file a path names holds no '/'.
pub proof fn lemma_file_name_no_separator(p: Seq<char>)
    ensures
        file_name(p) matches Some(n) ==> !n.contains('/'),
    decreases p.len(),
{
    if p.len() > 0 {
        if p.last() == '/' || trailing_segment(p) == seq!['.'] {
            lemma_file_name_no_separator(p.drop_last());
        } else {
            lemma_trailing_segment_no_separator(p);
        }
    }
}

/// Pushing a relative segment keeps the path it is pushed onto as a prefix.
pub proof fn path_push_extends(base: Seq<char>, seg: Seq<char>)
    requires
        seg.len() == 0 || seg[0] != '/',
    ensures
        path_push(base, seg).len() >= base.len(),
        path_push(base, seg).subrange(0, base.len() as int) == base,
{
    let r = path_push(base, seg);
    if base.len() > 0 && base.last() != '/' {
        assert(r == base + (seq!['/'] + seg));
    }
    assert(r.subrange(0, base.len() as int) =~= base);
}

/// Pushing a plain name onto a path gives a path that names that file.
pub proof fn path_push_names_file(base: Seq<char>, name: Seq<char>)
    requires
        name.len() > 0,
        name[0] != '.',
        !name.contains('/'),
    ensures
        file_name(path_push(base, name)) == Some(name),
{
    assert(name != seq!['.']) by {
        if name == seq!['.'] {
            assert(name[0] == '.');
        }
    }
    assert(name != seq!['.', '.']) by {
        if name == seq!['.', '.'] {
            assert(name[0] == '.');
        }
    }
    assert(name[0] != '/') by {
        assert(name.contains(name[0]));
    }
    if base.len() > 0 && base.last() != '/' {
        let dir = base + seq!['/'];
        assert(dir.last() == '/');
        assert(path_push(base, name) == dir + name);
        lemma_file_name_of_name(dir, name);
    } else {
        lemma_file_name_of_name(base, name);
    }
}

/// A string holding the characters `cs[a..b]`.
fn string_of_range(cs: &Vec<char>, a: usize, b: usize) -> (res: String)
    requires
        a <= b <= cs.len(),
    ensures
        res@ == cs@.subrange(a as int, b as int),
{
    let mut s = String::new();
    let mut i: usize = a;
    while i < b
        invariant
            a <= i <= b,
            b <= cs.len(),
            s@ == cs@.subrange(a as int, i as int),
        decreases b - i,
    {
        push_char(&mut s, cs[i]);
        i = i + 1;
        assert(s@ == cs@.subrange(a as int, i as int));
    }
    s
}

/// Pushes the segment `seg` onto the path `base` (see [`path_push`]).
pub fn push_path(base: &str, seg: &str) -> (res: String)
    ensures
        res@ == path_push(base@, seg@),
{
    let b = chars_of(base);
    let s = chars_of(seg);
    if s.len() > 0 && s[0] == '/' {
        return seg.to_owned();
    }
    let mut out = base.to_owned();
    if b.len() > 0 && b[b.len() - 1] != '/' {
        push_char(&mut out, '/');
    }
    out.append(seg);
    out
}

/// The start of the trailing segment of `p[..n]`.
fn segment_start(p: &Vec<char>, n: usize) -> (s: usize)
    requires
        n <= p.len(),
    ensures
        s <= n,
        p@.subrange(s as int, n as int) == trailing_segment(p@.take(n as int)),
        s == 0 || p@[s - 1] == '/',
{
    let mut s = n;
    assert(p@.subrange(n as int, n as int) =~= Seq::<char>::empty());
    while s > 0 && p[s - 1] != '/'
        invariant
            s <= n <= p.len(),
            trailing_segment(p@.take(n as int)) == trailing_segment(p@.take(s as int))
                + p@.subrange(s as int, n as int),
        decreases s,
    {
        assert(p@.take(s as int).drop_last() == p@.take(s - 1));
        assert(p@.take(s as int).last() == p@[s - 1]);
        assert(p@.subrange(s - 1, n as int) == seq![p@[s - 1]] + p@.subrange(s as int, n as int));
        s = s - 1;
    }
    assert(trailing_segment(p@.take(s as int)) =~= Seq::<char>::empty()) by {
        if s > 0 {
            assert(p@.take(s as int).last() == p@[s - 1]);
        }
    }
    s
}

/// Where the name of the file that `p[..n]` names lies in `p`.
fn file_name_range(p: &Vec<char>, n: usize) -> (res: Option<(usize, usize)>)
    requires
        n <= p.len(),
    ensures
        match res {
            Some((a, b)) => a <= b <= n && file_name(p@.take(n as int)) == Some(
                p@.subrange(a as int, b as int),
            ),
            None => file_name(p@.take(n as int)) is None,
        },
    decreases n,
{
    if n == 0 {
        return None;
    }
    assert(p@.take(n as int).drop_last() == p@.take(n - 1));
    assert(p@.take(n as int).last() == p@[n - 1]);
    if p[n - 1] == '/' {
        return file_name_range(p, n - 1);
    }
    let s = segment_start(p, n);
    let ghost seg = p@.subrange(s as int, n as int);
    if n - s == 1 && p[s] == '.' {
        assert(seg =~= seq!['.']);
        return file_name_range(p, n - 1);
    }
    if n - s == 2 && p[s] == '.' && p[s + 1] == '.' {
        assert(seg =~= seq!['.', '.']);
        return None;
    }
    assert(seg != seq!['.']) by {
        if seg == seq!['.'] {
            assert(seg.len() == 1 && seg[0] == p@[s as int]);
        }
    }
    assert(seg != seq!['.', '.']) by {
        if seg == seq!['.', '.'] {
            assert(seg.len() == 2 && seg[0] == p@[s as int] && seg[1] == p@[s + 1]);
        }
    }
    Some((s, n))
}

/// The extension of `p[a..b]`, as where it lies in `p`.
fn extension_range(p: &Vec<char>, a: usize, b: usize) -> (res: Option<usize>)
    requires
        a <= b <= p.len(),
    ensures
        match res {
            Some(j) => a <= j <= b && extension_of(p@.subrange(a as int, b as int)) == Some(
                p@.subrange(j as int, b as int),
            ),
            None => extension_of(p@.subrange(a as int, b as int)) is None,
        },
{
    let mut j = b;
    assert(p@.subrange(b as int, b as int) =~= Seq::<char>::empty());
    assert(p@.subrange(a as int, b as int) =~= p@.subrange(a as int, b as int) + Seq::<
        char,
    >::empty());
    while j > a && p[j - 1] != '.'
        invariant
            a <= j <= b <= p.len(),
            match extension_of(p@.subrange(a as int, j as int)) {
                Some(e) => extension_of(p@.subrange(a as int, b as int)) == Some(
                    e + p@.subrange(j as int, b as int),
                ),
                None => extension_of(p@.subrange(a as int, b as int)) is None,
            },
        decreases j,
    {
        let ghost pre = p@.subrange(a as int, j as int);
        assert(pre.drop_last() == p@.subrange(a as int, j - 1));
        assert(pre.last() == p@[j - 1]);
        assert(p@.subrange(j - 1, b as int) == seq![p@[j - 1]] + p@.subrange(j as int, b as int));
        proof {
            match extension_of(p@.subrange(a as int, j - 1)) {
                Some(e) => {
                    assert(e.push(p@[j - 1]) + p@.subrange(j as int, b as int) == e
                        + p@.subrange(j - 1, b as int));
                },
                None => {},
            }
        }
        j = j - 1;
    }
    if j == a {
        assert(p@.subrange(a as int, j as int) =~= Seq::<char>::empty());
        return None;
    }
    let ghost pre = p@.subrange(a as int, j as int);
    assert(pre.last() == p@[j - 1]);
    if j - 1 == a {
        return None;
    }
    assert(Seq::<char>::empty() + p@.subrange(j as int, b as int) == p@.subrange(j as int, b as int));
    Some(j)
}

/// The extension of the file a path names (see [`path_extension`]).
pub fn file_extension(path: &str) -> (res: Option<String>)
    ensures
        match res {
            Some(e) => path_extension(path@) == Some(e@),
            None => path_extension(path@) is None,
        },
{
    let cs = chars_of(path);
    assert(cs@.take(cs.len() as int) == path@);
    match file_name_range(&cs, cs.len()) {
        Some((a, b)) => match extension_range(&cs, a, b) {
            Some(j) => Some(string_of_range(&cs, j, b)),
            None => None,
        },
        None => None,
    }
}

} // verus!
