//! Unix file paths as text: their components and what is built from them.

use crate::text::{chars_of, is_same, slice_text, starts_with};
use vstd::prelude::*;
use vstd::string::StringExecFns;

verus! {

/// The characters of each string of a list.
pub open spec fn texts(v: Seq<String>) -> Seq<Seq<char>> {
    Seq::new(v.len(), |i: int| v[i]@)
}

/// The pieces of `s` between separators, reading from `i` on, where the current
/// piece began at `start`.
pub open spec fn split_from(s: Seq<char>, sep: char, start: int, i: int) -> Seq<Seq<char>>
    decreases s.len() - i,
{
    if i >= s.len() {
        seq![s.subrange(start, s.len() as int)]
    } else if s[i] == sep {
        seq![s.subrange(start, i)] + split_from(s, sep, i + 1, i + 1)
    } else {
        split_from(s, sep, start, i + 1)
    }
}

/// The pieces of `s` between separators; there is always one more than there are
/// separators.
pub open spec fn split(s: Seq<char>, sep: char) -> Seq<Seq<char>> {
    split_from(s, sep, 0, 0)
}

pub fn split_text(s: &str, sep: char) -> (r: Vec<String>)
    ensures
        texts(r@) == split(s@, sep),
{
    let chars = chars_of(s);
    let mut out: Vec<String> = Vec::new();
    let mut start: usize = 0;
    let mut i: usize = 0;
    assert(texts(out@) + split(s@, sep) =~= split(s@, sep));
    while i < chars.len()
        invariant
            chars@ == s@,
            start <= i <= chars@.len(),
            texts(out@) + split_from(s@, sep, start as int, i as int) == split(s@, sep),
        decreases chars.len() - i,
    {
        if chars[i] == sep {
            let piece = slice_text(&chars, start, i);
            let ghost before = texts(out@);
            out.push(piece);
            assert(texts(out@) =~= before.push(piece@));
            assert(texts(out@) + split_from(s@, sep, i + 1, i + 1) =~= before + (seq![piece@]
                + split_from(s@, sep, i + 1, i + 1)));
            start = i + 1;
        }
        i += 1;
    }
    let piece = slice_text(&chars, start, i);
    let ghost before = texts(out@);
    out.push(piece);
    assert(texts(out@) =~= before + seq![piece@]);
    out
}

/// Whether a piece of a path names something.
pub open spec fn is_step(piece: Seq<char>) -> bool {
    piece.len() > 0 && piece != seq!['.']
}

/// The pieces that name something, in order.
pub open spec fn steps(pieces: Seq<Seq<char>>) -> Seq<Seq<char>>
    decreases pieces.len(),
{
    if pieces.len() == 0 {
        Seq::empty()
    } else if is_step(pieces.last()) {
        steps(pieces.drop_last()).push(pieces.last())
    } else {
        steps(pieces.drop_last())
    }
}

pub open spec fn is_absolute(path: Seq<char>) -> bool {
    path.len() > 0 && path[0] == '/'
}

/// The components of a path: the root as `/` where it is absolute, then each step.
/// Repeated separators, and `.` anywhere but at the start of a relative path, do
/// not count.
pub open spec fn components(path: Seq<char>) -> Seq<Seq<char>> {
    let pieces = split(path, '/');
    let head = if is_absolute(path) {
        seq![seq!['/']]
    } else if pieces[0] == seq!['.'] {
        seq![seq!['.']]
    } else {
        Seq::empty()
    };
    head + steps(pieces)
}

proof fn lemma_split_nonempty(s: Seq<char>, sep: char, start: int, i: int)
    ensures
        split_from(s, sep, start, i).len() >= 1,
    decreases s.len() - i,
{
    if i < s.len() {
        if s[i] == sep {
        } else {
            lemma_split_nonempty(s, sep, start, i + 1);
        }
    }
}

pub fn components_of(path: &str) -> (r: Vec<String>)
    ensures
        texts(r@) == components(path@),
{
    let pieces = split_text(path, '/');
    proof {
        lemma_split_nonempty(path@, '/', 0, 0);
        assert(texts(pieces@)[0] == pieces@[0]@);
        reveal_strlit("/");
        reveal_strlit(".");
        assert("/"@ =~= seq!['/']);
        assert("."@ =~= seq!['.']);
    }
    let mut out: Vec<String> = Vec::new();
    let absolute = starts_with(path, "/");
    assert(absolute == is_absolute(path@)) by {
        if is_absolute(path@) {
            assert(path@.subrange(0, 1) =~= "/"@);
        }
        if absolute {
            assert(path@.subrange(0, 1)[0] == '/');
        }
    }
    if absolute {
        out.push("/".to_owned());
    } else if is_same(pieces[0].as_str(), ".") {
        out.push(".".to_owned());
    }
    let ghost head = texts(out@);
    assert(components(path@) =~= head + steps(texts(pieces@)));
    let mut i: usize = 0;
    assert(texts(pieces@).take(0) =~= Seq::empty());
    assert(head + steps(texts(pieces@).take(0)) =~= head);
    while i < pieces.len()
        invariant
            i <= pieces@.len(),
            "."@ == seq!['.'],
            texts(out@) == head + steps(texts(pieces@).take(i as int)),
        decreases pieces.len() - i,
    {
        let ghost upto = texts(pieces@).take(i + 1);
        assert(upto.drop_last() =~= texts(pieces@).take(i as int));
        assert(upto.last() == pieces@[i as int]@);
        let ghost before = texts(out@);
        if !pieces[i].as_str().is_empty() && !is_same(pieces[i].as_str(), ".") {
            out.push(pieces[i].clone());
            assert(texts(out@) =~= before.push(pieces@[i as int]@));
            assert(texts(out@) =~= head + steps(upto));
        }
        i += 1;
    }
    assert(texts(pieces@).take(i as int) =~= texts(pieces@));
    out
}

fn same_list(a: &Vec<String>, b: &Vec<String>, n: usize) -> (r: bool)
    requires
        n <= a@.len(),
        n <= b@.len(),
    ensures
        r == (texts(a@).take(n as int) == texts(b@).take(n as int)),
{
    let mut i: usize = 0;
    while i < n
        invariant
            i <= n <= a@.len(),
            n <= b@.len(),
            forall|j: int| 0 <= j < i ==> (#[trigger] a@[j])@ == b@[j]@,
        decreases n - i,
    {
        if !is_same(a[i].as_str(), b[i].as_str()) {
            assert(texts(a@).take(n as int)[i as int] != texts(b@).take(n as int)[i as int]);
            return false;
        }
        i += 1;
    }
    assert(texts(a@).take(n as int) =~= texts(b@).take(n as int));
    true
}

/// Whether `path` lies in the tree of `dir`: the components of `dir` come first in
/// those of `path`.
pub open spec fn is_under(path: Seq<char>, dir: Seq<char>) -> bool {
    components(dir).is_prefix_of(components(path))
}

pub fn path_starts_with(path: &str, dir: &str) -> (r: bool)
    ensures
        r == is_under(path@, dir@),
{
    let p = components_of(path);
    let d = components_of(dir);
    if d.len() > p.len() {
        return false;
    }
    let n = d.len();
    assert(texts(d@).take(n as int) =~= texts(d@));
    same_list(&p, &d, n)
}

/// The components of the directory that holds `path`; the root and the empty path
/// have none.
pub open spec fn parent_components(path: Seq<char>) -> Option<Seq<Seq<char>>> {
    let c = components(path);
    if c.len() == 0 || c.last() == seq!['/'] {
        None
    } else {
        Some(c.drop_last())
    }
}

/// Whether two paths have the same steps.
pub fn same_path(a: &str, b: &str) -> (r: bool)
    ensures
        r == (components(a@) == components(b@)),
{
    let x = components_of(a);
    let y = components_of(b);
    let r = x.len() == y.len() && path_starts_with(a, b);
    proof {
        let (ca, cb) = (components(a@), components(b@));
        if r {
            assert(ca.subrange(0, cb.len() as int) =~= ca);
        } else if ca == cb {
            assert(texts(x@).len() == texts(y@).len());
            assert(ca.subrange(0, cb.len() as int) =~= cb);
        }
    }
    r
}

/// Whether `dir` is the directory that holds `path`.
pub fn is_parent_of(dir: &str, path: &str) -> (r: bool)
    ensures
        r == (parent_components(path@) == Some(components(dir@))),
{
    let p = components_of(path);
    let d = components_of(dir);
    proof {
        reveal_strlit("/");
        assert("/"@ =~= seq!['/']);
        if p@.len() > 0 {
            assert(texts(p@).last() == p@.last()@);
        }
    }
    if p.len() == 0 || is_same(p[p.len() - 1].as_str(), "/") {
        return false;
    }
    assert(texts(p@).drop_last().len() == p@.len() - 1);
    if p.len() - 1 != d.len() {
        assert(components(path@).drop_last().len() != components(dir@).len());
        return false;
    }
    let n = d.len();
    assert(texts(d@).take(n as int) =~= texts(d@));
    assert(texts(p@).take(n as int) =~= texts(p@).drop_last());
    same_list(&p, &d, n)
}

/// `path` seen from `base`: an absolute `path` stands for itself.
pub open spec fn joined(base: Seq<char>, path: Seq<char>) -> Seq<char> {
    if is_absolute(path) {
        path
    } else if base.len() == 0 || base.last() == '/' {
        base + path
    } else {
        base.push('/') + path
    }
}

pub fn join(base: &str, path: &str) -> (r: String)
    ensures
        r@ == joined(base@, path@),
{
    proof {
        reveal_strlit("/");
        assert("/"@ =~= seq!['/']);
        if is_absolute(path@) {
            assert(path@.subrange(0, 1) =~= "/"@);
        }
        if "/"@.is_prefix_of(path@) {
            assert(path@.subrange(0, 1)[0] == '/');
        }
    }
    if starts_with(path, "/") {
        return path.to_owned();
    }
    let mut out = base.to_owned();
    if !base.is_empty() && !ends_with_slash(base) {
        out.push('/');
    }
    out.append(path);
    out
}

fn ends_with_slash(s: &str) -> (r: bool)
    ensures
        r == (s@.len() > 0 && s@.last() == '/'),
{
    let chars = chars_of(s);
    chars.len() > 0 && chars[chars.len() - 1] == '/'
}

/// The last component of a path where it is a name: neither the root nor `.` nor
/// `..`.
pub open spec fn file_name_spec(path: Seq<char>) -> Option<Seq<char>> {
    let c = components(path);
    if c.len() == 0 || c.last() == seq!['/'] || c.last() == seq!['.'] || c.last() == seq![
        '.',
        '.',
    ] {
        None
    } else {
        Some(c.last())
    }
}

pub fn file_name(path: &str) -> (r: Option<String>)
    ensures
        r is Some <==> file_name_spec(path@) is Some,
        r matches Some(n) ==> Some(n@) == file_name_spec(path@),
{
    let c = components_of(path);
    proof {
        reveal_strlit("/");
        reveal_strlit(".");
        reveal_strlit("..");
        assert("/"@ =~= seq!['/']);
        assert("."@ =~= seq!['.']);
        assert(".."@ =~= seq!['.', '.']);
        if c@.len() > 0 {
            assert(texts(c@).last() == c@.last()@);
        }
    }
    if c.len() == 0 {
        return None;
    }
    let last = &c[c.len() - 1];
    if is_same(last.as_str(), "/") || is_same(last.as_str(), ".") || is_same(last.as_str(), "..") {
        None
    } else {
        Some(last.clone())
    }
}

/// Where the last `c` stands in `s`, or -1.
pub open spec fn last_index(s: Seq<char>, c: char) -> int
    decreases s.len(),
{
    if s.len() == 0 {
        -1
    } else if s.last() == c {
        s.len() - 1
    } else {
        last_index(s.drop_last(), c)
    }
}

pub fn find_last(chars: &Vec<char>, c: char) -> (r: Option<usize>)
    ensures
        match r {
            Some(i) => i == last_index(chars@, c) && i < chars@.len() && chars@[i as int] == c,
            None => last_index(chars@, c) == -1,
        },
{
    let mut i: usize = chars.len();
    assert(chars@.take(i as int) =~= chars@);
    while i > 0
        invariant
            i <= chars@.len(),
            last_index(chars@.take(i as int), c) == last_index(chars@, c),
        decreases i,
    {
        if chars[i - 1] == c {
            return Some(i - 1);
        }
        assert(chars@.take(i as int).drop_last() =~= chars@.take(i - 1));
        i -= 1;
    }
    None
}

/// The part of a file name behind its last dot, where something stands before it.
pub open spec fn extension_of_name(name: Seq<char>) -> Option<Seq<char>> {
    let dot = last_index(name, '.');
    if dot <= 0 {
        None
    } else {
        Some(name.subrange(dot + 1, name.len() as int))
    }
}

/// The extension of the file that a path names.
pub open spec fn extension_spec(path: Seq<char>) -> Option<Seq<char>> {
    match file_name_spec(path) {
        Some(name) => extension_of_name(name),
        None => None,
    }
}

pub fn extension(path: &str) -> (r: Option<String>)
    ensures
        r is Some <==> extension_spec(path@) is Some,
        r matches Some(e) ==> Some(e@) == extension_spec(path@),
{
    match file_name(path) {
        Some(name) => {
            let chars = chars_of(name.as_str());
            let n: usize = chars.len();
            match find_last(&chars, '.') {
                Some(dot) => {
                    if dot == 0 {
                        None
                    } else {
                        Some(slice_text(&chars, dot + 1, n))
                    }
                },
                None => None,
            }
        },
        None => None,
    }
}

/// The letter in lower case, where it is an ASCII capital.
pub open spec fn ascii_lower(c: char) -> char {
    if 'A' <= c && c <= 'Z' {
        ((c as u8 + 32) as u8) as char
    } else {
        c
    }
}

/// Equality up to the case of ASCII letters.
pub open spec fn same_ignoring_case(a: Seq<char>, b: Seq<char>) -> bool {
    a.len() == b.len() && forall|i: int| 0 <= i < a.len() ==> ascii_lower(a[i]) == ascii_lower(b[i])
}

fn lower(c: char) -> (r: char)
    ensures
        r == ascii_lower(c),
{
    if 'A' <= c && c <= 'Z' {
        (c as u8 + 32) as char
    } else {
        c
    }
}

pub fn eq_ignore_case(a: &str, b: &str) -> (r: bool)
    ensures
        r == same_ignoring_case(a@, b@),
{
    let x = chars_of(a);
    let y = chars_of(b);
    if x.len() != y.len() {
        return false;
    }
    let mut i: usize = 0;
    while i < x.len()
        invariant
            i <= x@.len() == y@.len(),
            x@ == a@,
            y@ == b@,
            forall|j: int| 0 <= j < i ==> ascii_lower(a@[j]) == ascii_lower(b@[j]),
        decreases x.len() - i,
    {
        if lower(x[i]) != lower(y[i]) {
            return false;
        }
        i += 1;
    }
    true
}

/// The pieces from the first that names something on.
pub open spec fn drop_leading(pieces: Seq<Seq<char>>) -> Seq<Seq<char>>
    decreases pieces.len(),
{
    if pieces.len() == 0 || is_step(pieces[0]) {
        pieces
    } else {
        drop_leading(pieces.drop_first())
    }
}

/// The pieces up to the last that names something.
pub open spec fn drop_trailing(pieces: Seq<Seq<char>>) -> Seq<Seq<char>>
    decreases pieces.len(),
{
    if pieces.len() == 0 || is_step(pieces.last()) {
        pieces
    } else {
        drop_trailing(pieces.drop_last())
    }
}

/// The pieces with separators between them.
pub open spec fn rejoined(pieces: Seq<Seq<char>>) -> Seq<char>
    decreases pieces.len(),
{
    if pieces.len() == 0 {
        Seq::empty()
    } else if pieces.len() == 1 {
        pieces[0]
    } else {
        rejoined(pieces.drop_last()).push('/') + pieces.last()
    }
}

/// An absolute path as seen from the root; a relative one stands for itself.
pub open spec fn below_root(path: Seq<char>) -> Seq<char> {
    if is_absolute(path) {
        rejoined(drop_trailing(drop_leading(split(path, '/'))))
    } else {
        path
    }
}

fn names_something(piece: &str) -> (r: bool)
    ensures
        r == is_step(piece@),
{
    proof {
        reveal_strlit(".");
        assert("."@ =~= seq!['.']);
    }
    !piece.is_empty() && !is_same(piece, ".")
}

pub fn strip_root(path: &str) -> (r: String)
    ensures
        r@ == below_root(path@),
{
    proof {
        reveal_strlit("/");
        assert("/"@ =~= seq!['/']);
        if is_absolute(path@) {
            assert(path@.subrange(0, 1) =~= "/"@);
        }
        if "/"@.is_prefix_of(path@) {
            assert(path@.subrange(0, 1)[0] == '/');
        }
    }
    if !starts_with(path, "/") {
        return path.to_owned();
    }
    let pieces = split_text(path, '/');
    let ghost all = texts(pieces@);
    let mut first: usize = 0;
    let n: usize = pieces.len();
    assert(all.subrange(0, n as int) =~= all);
    while first < n && !names_something(pieces[first].as_str())
        invariant
            first <= n == pieces@.len(),
            all == texts(pieces@),
            drop_leading(all) == drop_leading(all.subrange(first as int, n as int)),
        decreases n - first,
    {
        assert(all.subrange(first as int, n as int).drop_first() =~= all.subrange(
            first + 1,
            n as int,
        ));
        assert(all.subrange(first as int, n as int)[0] == pieces@[first as int]@);
        first += 1;
    }
    let ghost rest = all.subrange(first as int, n as int);
    assert(first < n ==> rest[0] == pieces@[first as int]@);
    assert(drop_leading(all) == rest);
    let mut last: usize = n;
    while last > first && !names_something(pieces[last - 1].as_str())
        invariant
            first <= last <= n == pieces@.len(),
            all == texts(pieces@),
            drop_trailing(rest) == drop_trailing(all.subrange(first as int, last as int)),
        decreases last,
    {
        assert(all.subrange(first as int, last as int).drop_last() =~= all.subrange(
            first as int,
            last - 1,
        ));
        assert(all.subrange(first as int, last as int).last() == pieces@[last - 1]@);
        last -= 1;
    }
    let ghost middle = all.subrange(first as int, last as int);
    assert(last > first ==> middle.last() == pieces@[last - 1]@);
    assert(drop_trailing(rest) == middle);
    rejoin(&pieces, first, last)
}

/// The directory that holds a path, as text: the root for what lies in it, and nothing
/// for what lies in the current directory, unless that is spelled out.
pub open spec fn parent_text(path: Seq<char>) -> Seq<char> {
    let pieces = split(path, '/');
    let kept = drop_trailing(pieces);
    if kept.len() == 0 {
        Seq::empty()
    } else {
        let up = drop_trailing(kept.drop_last());
        if up.len() > 0 {
            rejoined(up)
        } else if is_absolute(path) {
            seq!['/']
        } else if kept.len() > 1 && pieces[0] == seq!['.'] {
            seq!['.']
        } else {
            Seq::empty()
        }
    }
}

fn trailing_end(pieces: &Vec<String>, end: usize) -> (r: usize)
    requires
        end <= pieces@.len(),
    ensures
        r <= end,
        drop_trailing(texts(pieces@).subrange(0, end as int)) == texts(pieces@).subrange(
            0,
            r as int,
        ),
{
    let ghost all = texts(pieces@);
    let mut last: usize = end;
    while last > 0 && !names_something(pieces[last - 1].as_str())
        invariant
            last <= end <= pieces@.len(),
            all == texts(pieces@),
            drop_trailing(all.subrange(0, end as int)) == drop_trailing(
                all.subrange(0, last as int),
            ),
        decreases last,
    {
        assert(all.subrange(0, last as int).drop_last() =~= all.subrange(0, last - 1));
        assert(all.subrange(0, last as int).last() == pieces@[last - 1]@);
        last -= 1;
    }
    assert(last > 0 ==> all.subrange(0, last as int).last() == pieces@[last - 1]@);
    last
}

/// The directory that holds a path; the root and the empty path have none.
pub fn parent(path: &str) -> (r: Option<String>)
    ensures
        r is Some <==> parent_components(path@) is Some,
        r matches Some(p) ==> p@ == parent_text(path@),
{
    let c = components_of(path);
    proof {
        reveal_strlit("/");
        assert("/"@ =~= seq!['/']);
        if c@.len() > 0 {
            assert(texts(c@).last() == c@.last()@);
        }
        assert(is_absolute(path@) == "/"@.is_prefix_of(path@)) by {
            if is_absolute(path@) {
                assert(path@.subrange(0, 1) =~= "/"@);
            }
            if "/"@.is_prefix_of(path@) {
                assert(path@.subrange(0, 1)[0] == '/');
            }
        }
    }
    if c.len() == 0 || is_same(c[c.len() - 1].as_str(), "/") {
        return None;
    }
    let pieces = split_text(path, '/');
    let ghost all = texts(pieces@);
    let n: usize = pieces.len();
    assert(all.subrange(0, n as int) =~= all);
    let kept: usize = trailing_end(&pieces, n);
    if kept == 0 {
        return Some(String::new());
    }
    assert(drop_trailing(all).drop_last() =~= all.subrange(0, kept - 1));
    let up: usize = trailing_end(&pieces, kept - 1);
    if up > 0 {
        return Some(rejoin(&pieces, 0, up));
    }
    if starts_with(path, "/") {
        return Some("/".to_owned());
    }
    proof {
        reveal_strlit(".");
        assert("."@ =~= seq!['.']);
        assert(all[0] == pieces@[0]@);
    }
    if kept > 1 && is_same(pieces[0].as_str(), ".") {
        Some(".".to_owned())
    } else {
        Some(String::new())
    }
}

fn rejoin(pieces: &Vec<String>, first: usize, last: usize) -> (r: String)
    requires
        first <= last <= pieces@.len(),
    ensures
        r@ == rejoined(texts(pieces@).subrange(first as int, last as int)),
{
    let ghost all = texts(pieces@);
    let mut out = String::new();
    let mut i: usize = first;
    assert(all.subrange(first as int, i as int) =~= Seq::empty());
    while i < last
        invariant
            first <= i <= last <= pieces@.len(),
            all == texts(pieces@),
            out@ == rejoined(all.subrange(first as int, i as int)),
        decreases last - i,
    {
        let ghost upto = all.subrange(first as int, i + 1);
        assert(upto.drop_last() =~= all.subrange(first as int, i as int));
        assert(upto.last() == pieces@[i as int]@);
        if i > first {
            out.push('/');
        }
        let ghost before = out@;
        out.append(pieces[i].as_str());
        if i == first {
            assert(before + pieces@[i as int]@ =~= upto[0]);
        }
        i += 1;
    }
    out
}

/// What stands before the file name of a path, up to and with the separator.
pub open spec fn before_name(path: Seq<char>) -> Seq<char> {
    let kept = drop_trailing(split(path, '/'));
    if kept.len() <= 1 {
        Seq::empty()
    } else {
        rejoined(kept.drop_last()).push('/')
    }
}

/// A file name without its extension.
pub open spec fn stem_of_name(name: Seq<char>) -> Seq<char> {
    let dot = last_index(name, '.');
    if dot <= 0 {
        name
    } else {
        name.subrange(0, dot)
    }
}

/// The path with another extension; one that names no file is left as it is.
pub open spec fn with_extension_spec(path: Seq<char>, ext: Seq<char>) -> Seq<char> {
    match file_name_spec(path) {
        Some(name) => {
            let stem = before_name(path) + stem_of_name(name);
            if ext.len() == 0 {
                stem
            } else {
                stem.push('.') + ext
            }
        },
        None => path,
    }
}

pub fn with_extension(path: &str, ext: &str) -> (r: String)
    ensures
        r@ == with_extension_spec(path@, ext@),
{
    let name = match file_name(path) {
        Some(name) => name,
        None => {
            return path.to_owned();
        },
    };
    let pieces = split_text(path, '/');
    let ghost all = texts(pieces@);
    let n: usize = pieces.len();
    let mut last: usize = n;
    assert(all.subrange(0, n as int) =~= all);
    while last > 0 && !names_something(pieces[last - 1].as_str())
        invariant
            last <= n == pieces@.len(),
            all == texts(pieces@),
            drop_trailing(all) == drop_trailing(all.subrange(0, last as int)),
        decreases last,
    {
        assert(all.subrange(0, last as int).drop_last() =~= all.subrange(0, last - 1));
        assert(all.subrange(0, last as int).last() == pieces@[last - 1]@);
        last -= 1;
    }
    let ghost kept = all.subrange(0, last as int);
    assert(last > 0 ==> kept.last() == pieces@[last - 1]@);
    assert(drop_trailing(all) == kept);
    let mut out = if last <= 1 {
        String::new()
    } else {
        let mut head = rejoin(&pieces, 0, last - 1);
        assert(kept.drop_last() =~= all.subrange(0, last - 1));
        head.push('/');
        head
    };
    assert(out@ == before_name(path@));
    let chars = chars_of(name.as_str());
    match find_last(&chars, '.') {
        Some(dot) => {
            if dot == 0 {
                out.append(name.as_str());
            } else {
                out.append(slice_text(&chars, 0, dot).as_str());
            }
        },
        None => {
            out.append(name.as_str());
        },
    }
    if !ext.is_empty() {
        out.push('.');
        out.append(ext);
    }
    out
}

/// A path lies in its own tree.
pub proof fn law_under_itself(path: Seq<char>)
    ensures
        is_under(path, path),
{
    assert(components(path).subrange(0, components(path).len() as int) =~= components(path));
}

/// What lies directly in a directory lies in its tree.
pub proof fn law_child_is_under(path: Seq<char>, dir: Seq<char>)
    requires
        parent_components(path) == Some(components(dir)),
    ensures
        is_under(path, dir),
{
    let c = components(path);
    assert(c.subrange(0, c.len() - 1) =~= c.drop_last());
}

proof fn lemma_split_tail(s: Seq<char>, sep: char, start: int, i: int)
    requires
        0 <= start <= i <= s.len(),
        forall|k: int| i <= k < s.len() ==> s[k] != sep,
    ensures
        split_from(s, sep, start, i) == seq![s.subrange(start, s.len() as int)],
    decreases s.len() - i,
{
    if i < s.len() {
        lemma_split_tail(s, sep, start, i + 1);
    }
}

proof fn lemma_split_append(a: Seq<char>, f: Seq<char>, sep: char, start: int, i: int)
    requires
        0 <= start <= i <= a.len(),
        forall|k: int| 0 <= k < f.len() ==> f[k] != sep,
    ensures
        split_from(a, sep, start, i).len() >= 1,
        split_from(a + f, sep, start, i) == split_from(a, sep, start, i).drop_last().push(
            split_from(a, sep, start, i).last() + f,
        ),
    decreases a.len() - i,
{
    let s = a + f;
    if i == a.len() {
        assert forall|k: int| i <= k < s.len() implies s[k] != sep by {
            assert(s[k] == f[k - a.len()]);
        }
        lemma_split_tail(s, sep, start, i);
        assert(s.subrange(start, s.len() as int) =~= a.subrange(start, a.len() as int) + f);
        assert(split_from(a, sep, start, i).drop_last().push(
            split_from(a, sep, start, i).last() + f,
        ) =~= seq![a.subrange(start, a.len() as int) + f]);
    } else if a[i] == sep {
        lemma_split_append(a, f, sep, i + 1, i + 1);
        assert(s[i] == sep);
        assert(s.subrange(start, i) =~= a.subrange(start, i));
        let rest = split_from(a, sep, i + 1, i + 1);
        let whole = split_from(a, sep, start, i);
        assert(whole =~= seq![a.subrange(start, i)] + rest);
        assert(whole.drop_last().push(whole.last() + f) =~= seq![a.subrange(start, i)]
            + rest.drop_last().push(rest.last() + f));
    } else {
        assert(s[i] == a[i]);
        lemma_split_append(a, f, sep, start, i + 1);
    }
}

proof fn lemma_split_push_sep(a: Seq<char>, sep: char, start: int, i: int)
    requires
        0 <= start <= i <= a.len(),
    ensures
        split_from(a.push(sep), sep, start, i) == split_from(a, sep, start, i).push(Seq::empty()),
    decreases a.len() - i,
{
    let s = a.push(sep);
    if i == a.len() {
        assert(s.subrange(start, i) =~= a.subrange(start, i));
        assert(split_from(s, sep, i + 1, i + 1) =~= seq![Seq::<char>::empty()]) by {
            assert(s.subrange(i + 1, s.len() as int) =~= Seq::empty());
        }
        assert(split_from(s, sep, start, i) =~= split_from(a, sep, start, i).push(Seq::empty()));
    } else if a[i] == sep {
        lemma_split_push_sep(a, sep, i + 1, i + 1);
        assert(s.subrange(start, i) =~= a.subrange(start, i));
        assert(split_from(s, sep, start, i) =~= split_from(a, sep, start, i).push(Seq::empty()));
    } else {
        lemma_split_push_sep(a, sep, start, i + 1);
    }
}

/// A file put into a directory by its name lies directly in that directory. The name is
/// one step: not empty, without a separator, and not `.`.
pub proof fn law_joined_lies_in_dir(dir: Seq<char>, name: Seq<char>)
    requires
        is_step(name),
        forall|k: int| 0 <= k < name.len() ==> name[k] != '/',
    ensures
        parent_components(joined(dir, name)) == Some(components(dir)),
        components(joined(dir, name)) == components(dir).push(name),
{
    let path = joined(dir, name);
    let pieces = split(path, '/');
    let own = split(dir, '/');
    lemma_split_nonempty(dir, '/', 0, 0);
    if dir.len() == 0 || dir.last() == '/' {
        lemma_split_append(dir, name, '/', 0, 0);
        if dir.len() == 0 {
            assert(dir.subrange(0, 0) =~= Seq::<char>::empty());
            assert(own == seq![dir.subrange(0, dir.len() as int)]);
            assert(own.last() =~= Seq::empty());
            assert(name[0] != '/');
        } else {
            let front = dir.drop_last();
            assert(front.push('/') =~= dir);
            lemma_split_push_sep(front, '/', 0, 0);
            assert(own.last() =~= Seq::empty());
        }
        assert(own.last() + name =~= name);
        assert(pieces == own.drop_last().push(name));
        assert(steps(own) == steps(own.drop_last()));
        assert(pieces.drop_last() =~= own.drop_last());
    } else {
        lemma_split_push_sep(dir, '/', 0, 0);
        lemma_split_append(dir.push('/'), name, '/', 0, 0);
        assert(Seq::<char>::empty() + name =~= name);
        assert(own.push(Seq::empty()).drop_last() =~= own);
        assert(pieces == own.push(name));
        assert(pieces.drop_last() =~= own);
    }
    assert(steps(pieces) == steps(own).push(name));
    if dir.len() > 0 {
        assert(path[0] == dir[0]);
    } else {
        assert(path =~= name);
    }
    if own.len() == 1 && (dir.len() == 0 || dir.last() == '/') {
        if dir.len() > 0 {
            let front = dir.drop_last();
            lemma_split_nonempty(front, '/', 0, 0);
        }
        assert(dir.len() == 0);
        assert(pieces[0] =~= name);
        assert(own[0] != seq!['.']) by {
            assert(own[0].len() == 0);
        }
    } else {
        assert(pieces[0] == own[0]);
    }
    assert(components(path) =~= components(dir).push(name));
    assert(components(path).drop_last() =~= components(dir));
    assert(name != seq!['/']) by {
        assert(name[0] != '/');
    }
}

/// A path is put behind a directory with one separator between them; an absolute one stands for
/// itself.
pub proof fn law_joined_paths(base: Seq<char>, path: Seq<char>)
    ensures
        path.len() > 0 && path[0] == '/' ==> joined(base, path) == path,
        (path.len() == 0 || path[0] != '/') && base.len() > 0 && base.last() != '/' ==> joined(
            base,
            path,
        ) == base + seq!['/'] + path,
        (path.len() == 0 || path[0] != '/') && base.len() > 0 && base.last() == '/' ==> joined(
            base,
            path,
        ) == base + path,
        (path.len() == 0 || path[0] != '/') ==> joined(Seq::empty(), path) == path,
{
    assert(base.push('/') + path =~= base + seq!['/'] + path);
    assert(Seq::<char>::empty() + path =~= path);
}

/// A text without the separator is one piece; a separator ends a piece.
pub proof fn law_pieces(s: Seq<char>, sep: char)
    requires
        !s.contains(sep),
    ensures
        split(s, sep) == seq![s],
{
    lemma_one_piece(s, sep, 0);
    assert(s.subrange(0, s.len() as int) =~= s);
}

proof fn lemma_one_piece(s: Seq<char>, sep: char, i: int)
    requires
        !s.contains(sep),
        0 <= i <= s.len(),
    ensures
        split_from(s, sep, 0, i) == seq![s.subrange(0, s.len() as int)],
    decreases s.len() - i,
{
    if i < s.len() {
        assert(s.contains(s[i]));
        lemma_one_piece(s, sep, i + 1);
    }
}

/// The extension of a file is what stands behind its last dot.
pub proof fn law_extension_of_a_name(stem: Seq<char>, ext: Seq<char>)
    requires
        stem.len() > 0,
        !ext.contains('.'),
    ensures
        extension_of_name(stem + seq!['.'] + ext) == Some(ext),
{
    let name = stem + seq!['.'] + ext;
    lemma_last_dot(stem, ext);
    assert(name.subrange(stem.len() as int + 1, name.len() as int) =~= ext);
}

proof fn lemma_last_dot(stem: Seq<char>, ext: Seq<char>)
    requires
        !ext.contains('.'),
    ensures
        last_index(stem + seq!['.'] + ext, '.') == stem.len(),
    decreases ext.len(),
{
    let name = stem + seq!['.'] + ext;
    if ext.len() > 0 {
        let rest = ext.drop_last();
        assert(ext.contains(ext.last()));
        assert(name.drop_last() =~= stem + seq!['.'] + rest);
        assert forall|c: char| rest.contains(c) implies ext.contains(c) by {
            let i = choose|i: int| 0 <= i < rest.len() && rest[i] == c;
            assert(ext[i] == c);
        }
        lemma_last_dot(stem, rest);
    } else {
        assert(name.last() == '.');
    }
}

/// Letters are the same whatever their case, and nothing else is.
pub proof fn law_case_of_letters()
    ensures
        ascii_lower('A') == 'a',
        ascii_lower('Z') == 'z',
        ascii_lower('a') == 'a',
        ascii_lower('0') == '0',
        ascii_lower('.') == '.',
{
}

/// The pieces of a path, put together again with separators between them, are the path.
pub proof fn law_pieces_make_the_path(path: Seq<char>)
    ensures
        rejoined(split(path, '/')) == path,
    decreases path.len(),
{
    if path.len() == 0 {
        assert(split(path, '/') == seq![path.subrange(0, 0)]);
        assert(path.subrange(0, 0) =~= path);
    } else {
        let front = path.drop_last();
        let own = split(front, '/');
        law_pieces_make_the_path(front);
        lemma_split_nonempty(front, '/', 0, 0);
        assert(front.push(path.last()) =~= path);
        if path.last() == '/' {
            lemma_split_push_sep(front, '/', 0, 0);
            assert(own.push(Seq::empty()).drop_last() =~= own);
            assert(rejoined(own.push(Seq::empty())) =~= rejoined(own).push('/'));
        } else {
            let c = seq![path.last()];
            lemma_split_append(front, c, '/', 0, 0);
            assert(front + c =~= path);
            let longer = own.drop_last().push(own.last() + c);
            assert(longer.drop_last() =~= own.drop_last());
            if own.len() > 1 {
                assert(rejoined(longer) =~= rejoined(own) + c);
            } else {
                assert(rejoined(longer) =~= rejoined(own) + c);
            }
        }
    }
}

/// What is put behind a directory with a separator between them has the directory as its parent
/// and its own name as its file name. The last step of the directory and the name each name
/// something.
pub proof fn law_path_in_a_directory(dir: Seq<char>, name: Seq<char>)
    requires
        dir.len() > 0,
        dir.last() != '/',
        is_step(split(dir, '/').last()),
        is_step(name),
        name != seq!['.', '.'],
        forall|k: int| 0 <= k < name.len() ==> name[k] != '/',
    ensures
        split(dir + seq!['/'] + name, '/') == split(dir, '/').push(name),
        parent_text(dir + seq!['/'] + name) == dir,
        before_name(dir + seq!['/'] + name) == dir + seq!['/'],
        file_name_spec(dir + seq!['/'] + name) == Some(name),
{
    let path = dir + seq!['/'] + name;
    let own = split(dir, '/');
    assert(path =~= joined(dir, name));
    law_joined_lies_in_dir(dir, name);
    lemma_split_nonempty(dir, '/', 0, 0);
    lemma_split_push_sep(dir, '/', 0, 0);
    lemma_split_append(dir.push('/'), name, '/', 0, 0);
    assert(dir.push('/') + name =~= path);
    assert(Seq::<char>::empty() + name =~= name);
    assert(own.push(Seq::empty()).drop_last() =~= own);
    assert(split(path, '/') == own.push(name));
    assert(own.push(name).drop_last() =~= own);
    law_pieces_make_the_path(dir);
    assert(dir.push('/') =~= dir + seq!['/']);
    assert(components(path).last() == name);
    assert(name[0] != '/');
}

/// A file keeps its directory and all of its name but the extension.
pub proof fn law_extension_is_exchanged(
    dir: Seq<char>,
    stem: Seq<char>,
    old_ext: Seq<char>,
    ext: Seq<char>,
)
    requires
        dir.len() > 0,
        dir.last() != '/',
        is_step(split(dir, '/').last()),
        stem.len() > 0,
        stem != seq!['.'],
        !stem.contains('/'),
        !old_ext.contains('/'),
        !old_ext.contains('.'),
        ext.len() > 0,
    ensures
        extension_spec(dir + seq!['/'] + stem + seq!['.'] + old_ext) == Some(old_ext),
        with_extension_spec(dir + seq!['/'] + stem + seq!['.'] + old_ext, ext) == dir + seq!['/']
            + stem + seq!['.'] + ext,
{
    let name = stem + seq!['.'] + old_ext;
    let path = dir + seq!['/'] + stem + seq!['.'] + old_ext;
    assert(path =~= dir + seq!['/'] + name);
    assert forall|k: int| 0 <= k < name.len() implies name[k] != '/' by {
        if k < stem.len() {
            assert(stem.contains(stem[k]));
        } else if k > stem.len() {
            assert(old_ext.contains(old_ext[k - stem.len() - 1]));
        }
    }
    assert(name.len() >= 2);
    assert(name != seq!['.', '.']) by {
        if name == seq!['.', '.'] {
            assert(stem.len() == 1);
            assert(name[0] == stem[0]);
            assert(stem =~= seq!['.']);
        }
    }
    assert(is_step(name));
    law_path_in_a_directory(dir, name);
    law_extension_of_a_name(stem, old_ext);
    lemma_last_dot(stem, old_ext);
    assert(name.subrange(0, stem.len() as int) =~= stem);
    assert((dir + seq!['/'] + stem).push('.') + ext =~= dir + seq!['/'] + stem + seq!['.'] + ext);
}

/// What lies directly in the root has the root as its parent, and what lies in the current
/// directory has nothing as its parent.
pub proof fn law_parents_that_are_not_spelled_out(name: Seq<char>)
    requires
        is_step(name),
        !name.contains('/'),
    ensures
        parent_text(seq!['/'] + name) == seq!['/'],
        parent_text(name) == Seq::<char>::empty(),
{
    law_pieces(name, '/');
    assert(seq![name].drop_last() =~= Seq::empty());
    let path = seq!['/'] + name;
    let none = Seq::<char>::empty();
    assert forall|k: int| 0 <= k < name.len() implies name[k] != '/' by {
        assert(name.contains(name[k]));
    }
    lemma_split_push_sep(none, '/', 0, 0);
    lemma_split_append(none.push('/'), name, '/', 0, 0);
    assert(none.push('/') + name =~= path);
    assert(none.subrange(0, 0) =~= none);
    assert(split(none, '/') == seq![none]);
    assert(none + name =~= name);
    let pieces = split(path, '/');
    assert(pieces =~= seq![none, name]);
    assert(drop_trailing(pieces) == pieces);
    assert(pieces.drop_last() =~= seq![none]);
    assert(seq![none].drop_last() =~= Seq::empty());
    assert(drop_trailing(seq![none]) == drop_trailing(Seq::<Seq<char>>::empty()));
    assert(name[0] != '/');
}

/// The components of a name alone, in the root, and in the current directory where that is
/// spelled out.
pub proof fn law_components_of_a_name(name: Seq<char>)
    requires
        is_step(name),
        !name.contains('/'),
    ensures
        components(name) == seq![name],
        components(seq!['/'] + name) == seq![seq!['/'], name],
        components(seq!['.', '/'] + name) == seq![seq!['.'], name],
        parent_text(seq!['.', '/'] + name) == seq!['.'],
{
    assert forall|k: int| 0 <= k < name.len() implies name[k] != '/' by {
        assert(name.contains(name[k]));
    }
    let none = Seq::<char>::empty();
    let dot = seq!['.'];
    let path = seq!['.', '/'] + name;
    law_joined_lies_in_dir(none, name);
    assert(none + name =~= name);
    law_pieces(none, '/');
    reveal_with_fuel(steps, 3);
    assert(seq![none].drop_last() =~= Seq::empty());
    assert(components(none) =~= Seq::empty());
    assert(components(name) =~= seq![name]);
    law_joined_lies_in_dir(seq!['/'], name);
    lemma_split_push_sep(none, '/', 0, 0);
    assert(none.push('/') =~= seq!['/']);
    assert(split(seq!['/'], '/') =~= seq![none, none]);
    assert(seq![none, none].drop_last() =~= seq![none]);
    assert(components(seq!['/']) =~= seq![seq!['/']]);
    assert(components(seq!['/'] + name) =~= seq![seq!['/'], name]);
    assert(!dot.contains('/'));
    law_pieces(dot, '/');
    lemma_split_push_sep(dot, '/', 0, 0);
    lemma_split_append(dot.push('/'), name, '/', 0, 0);
    assert(dot.push('/') + name =~= path);
    let pieces = split(path, '/');
    assert(pieces =~= seq![dot, name]);
    assert(pieces.drop_last() =~= seq![dot]);
    assert(seq![dot].drop_last() =~= Seq::empty());
    assert(!is_step(dot));
    assert(components(path) =~= seq![dot, name]);
    assert(drop_trailing(pieces) == pieces);
    assert(drop_trailing(seq![dot]) == drop_trailing(Seq::<Seq<char>>::empty()));
}

/// A name without a dot has no extension, and neither has one whose only dot comes first.
pub proof fn law_names_without_an_extension(name: Seq<char>)
    requires
        !name.contains('.'),
    ensures
        extension_of_name(name) is None,
        extension_of_name(seq!['.'] + name) is None,
        stem_of_name(name) == name,
        stem_of_name(seq!['.'] + name) == seq!['.'] + name,
{
    lemma_no_dot(name);
    lemma_last_dot(Seq::empty(), name);
    assert(Seq::<char>::empty() + seq!['.'] + name =~= seq!['.'] + name);
}

proof fn lemma_no_dot(name: Seq<char>)
    requires
        !name.contains('.'),
    ensures
        last_index(name, '.') == -1,
    decreases name.len(),
{
    if name.len() > 0 {
        let front = name.drop_last();
        assert(name.contains(name.last()));
        assert forall|c: char| front.contains(c) implies name.contains(c) by {
            let i = choose|i: int| 0 <= i < front.len() && front[i] == c;
            assert(name[i] == c);
        }
        lemma_no_dot(front);
    }
}

} // verus!
