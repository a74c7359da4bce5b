//! Paths as character sequences, joined the way `PathBuf::push` joins them on Unix, and told
//! apart by their components, as `Path` compares them.

use vstd::prelude::*;

verus! {

/// `path` starts at the root of the file system.
pub open spec fn is_absolute(path: Seq<char>) -> bool {
    path.len() > 0 && path[0] == '/'
}

/// `path` read relative to `base`: an absolute `path` stands for itself; otherwise it is
/// appended to `base`, with a separator between them where `base` is non-empty and does not
/// already end in one.
pub open spec fn join_path(base: Seq<char>, path: Seq<char>) -> Seq<char> {
    if is_absolute(path) {
        path
    } else if base.len() > 0 && base.last() != '/' {
        base + seq!['/'] + path
    } else {
        base + path
    }
}

/// The path that `path` names when it is read relative to the home directory `home`.
pub fn absolute(home: &str, path: &str) -> (r: String)
    ensures
        r@ == join_path(home@, path@),
{
    proof {
        reveal_strlit("/");
    }
    let path_len = path.unicode_len();
    if path_len > 0 && path.get_char(0) == '/' {
        return String::from_str(path);
    }
    let home_len = home.unicode_len();
    let mut r = String::from_str(home);
    if home_len > 0 && home.get_char(home_len - 1) != '/' {
        r.append("/");
    }
    r.append(path);
    r
}

/// The characters of each string of `v`.
pub open spec fn views(v: Seq<String>) -> Seq<Seq<char>> {
    v.map_values(|s: String| s@)
}

/// `done` with the segment `cur` added as a component, unless it is empty or `.`.
pub open spec fn finish_piece(done: Seq<Seq<char>>, cur: Seq<char>) -> Seq<Seq<char>> {
    if cur.len() == 0 || cur == seq!['.'] {
        done
    } else {
        done.push(cur)
    }
}

/// Reading `p` from the start: the components found so far, and the segment under way.
pub open spec fn scan_pieces(p: Seq<char>) -> (Seq<Seq<char>>, Seq<char>)
    decreases p.len(),
{
    if p.len() == 0 {
        (Seq::empty(), Seq::empty())
    } else {
        let prev = scan_pieces(p.drop_last());
        if p.last() == '/' {
            (finish_piece(prev.0, prev.1), Seq::empty())
        } else {
            (prev.0, prev.1.push(p.last()))
        }
    }
}

/// The named components of `p`: its segments between separators, without the empty ones and
/// without `.`.
pub open spec fn normal_components(p: Seq<char>) -> Seq<Seq<char>> {
    finish_piece(scan_pieces(p).0, scan_pieces(p).1)
}

/// `p` begins with the current directory, `.`, as its own component.
pub open spec fn starts_with_cur_dir(p: Seq<char>) -> bool {
    p.len() > 0 && p[0] == '.' && (p.len() == 1 || p[1] == '/')
}

/// What `Path` compares two paths by: the root, a leading `.`, and the named components.
pub open spec fn path_key(p: Seq<char>) -> (bool, bool, Seq<Seq<char>>) {
    (is_absolute(p), starts_with_cur_dir(p), normal_components(p))
}

/// `a` and `b` are the same path as `Path` compares paths: both rooted or neither, both
/// beginning with `.` or neither, and with the same named components.
pub open spec fn same_components(a: Seq<char>, b: Seq<char>) -> bool {
    &&& is_absolute(a) == is_absolute(b)
    &&& starts_with_cur_dir(a) == starts_with_cur_dir(b)
    &&& normal_components(a) == normal_components(b)
}

/// Adds the characters `start..end` of `p` to `pieces` as a component, unless they are empty
/// or `.`.
fn push_piece(pieces: &mut Vec<String>, p: &str, start: usize, end: usize)
    requires
        start <= end <= p@.len(),
    ensures
        views(final(pieces)@) == finish_piece(views(old(pieces)@), p@.subrange(
            start as int,
            end as int,
        )),
{
    let ghost seg = p@.subrange(start as int, end as int);
    let is_dot = if end - start == 1 {
        p.get_char(start) == '.'
    } else {
        false
    };
    if end > start && !is_dot {
        let piece = String::from_str(p.substring_char(start, end));
        let ghost before = pieces@;
        assert(!(seg.len() == 0 || seg == seq!['.'])) by {
            if seg == seq!['.'] {
                assert(seq!['.'].len() == 1);
                assert(seg[0] == p@[start as int]);
                assert(seq!['.'][0] == '.');
            }
        }
        pieces.push(piece);
        assert(views(pieces@) =~= views(before).push(seg));
    } else {
        assert(seg.len() == 0 || seg =~= seq!['.']);
    }
}

/// The root, the leading `.` and the named components of `p`.
pub fn components(p: &str) -> (r: (bool, bool, Vec<String>))
    ensures
        (r.0, r.1, views(r.2@)) == path_key(p@),
{
    let n = p.unicode_len();
    let mut pieces: Vec<String> = Vec::new();
    let mut start: usize = 0;
    let mut i: usize = 0;
    assert(views(pieces@) =~= Seq::<Seq<char>>::empty());
    assert(p@.take(0) =~= Seq::<char>::empty());
    while i < n
        invariant
            start <= i <= n,
            n == p@.len(),
            scan_pieces(p@.take(i as int)) == (views(pieces@), p@.subrange(start as int, i as int)),
        decreases n - i,
    {
        let c = p.get_char(i);
        assert(p@.take(i + 1).drop_last() =~= p@.take(i as int));
        assert(p@.take(i + 1).last() == c);
        if c == '/' {
            push_piece(&mut pieces, p, start, i);
            start = i + 1;
            assert(p@.subrange(start as int, i + 1) =~= Seq::<char>::empty());
        } else {
            assert(p@.subrange(start as int, i + 1) =~= p@.subrange(start as int, i as int).push(c));
        }
        i = i + 1;
    }
    assert(p@.take(n as int) =~= p@);
    push_piece(&mut pieces, p, start, n);
    let rooted = n > 0 && p.get_char(0) == '/';
    let cur_dir = n > 0 && p.get_char(0) == '.' && (n == 1 || p.get_char(1) == '/');
    (rooted, cur_dir, pieces)
}

/// Whether `a` and `b` hold strings with the same characters, in order.
pub fn same_strings(a: &Vec<String>, b: &Vec<String>) -> (r: bool)
    ensures
        r == (views(a@) == views(b@)),
{
    if a.len() != b.len() {
        assert(views(a@).len() != views(b@).len());
        return false;
    }
    let n = a.len();
    let mut i: usize = 0;
    while i < n
        invariant
            i <= n,
            n == a@.len(),
            n == b@.len(),
            forall|k: int| 0 <= k < i ==> a@[k]@ == b@[k]@,
        decreases n - i,
    {
        if !(a[i] == b[i]) {
            assert(views(a@)[i as int] != views(b@)[i as int]);
            return false;
        }
        i = i + 1;
    }
    assert(views(a@) =~= views(b@));
    true
}

/// A path joined onto an absolute base is absolute.
pub proof fn lemma_join_absolute(base: Seq<char>, path: Seq<char>)
    requires
        is_absolute(base) || is_absolute(path),
    ensures
        is_absolute(join_path(base, path)),
{
}

} // verus!
