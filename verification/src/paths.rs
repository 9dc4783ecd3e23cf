//! When two texts name the same path, on the systems that the app runs on: names are separated
//! by slashes, and there are no drives.

use vstd::prelude::*;

use crate::text;

verus! {

/// The names that a path is made of, from its first directory on. Slashes in a row count as one,
/// and a single dot names nothing.
pub open spec fn names(path: Seq<char>) -> Seq<Seq<char>>
    decreases path.len(),
{
    if path.len() == 0 {
        Seq::empty()
    } else {
        let end = text::position_of(path, '/') as int;
        let rest = if 0 <= end < path.len() {
            names(path.skip(end + 1))
        } else {
            Seq::empty()
        };
        let first = path.take(end);
        if first.len() == 0 || first == seq!['.'] {
            rest
        } else {
            seq![first] + rest
        }
    }
}

/// Whether a path starts at the root.
pub open spec fn is_rooted(path: Seq<char>) -> bool {
    path.len() > 0 && path[0] == '/'
}

/// Whether a path names the current directory at its start.
pub open spec fn starts_here(path: Seq<char>) -> bool {
    path.len() > 0 && path[0] == '.' && (path.len() == 1 || path[1] == '/')
}

/// Whether two texts name the same path: part by part, not letter by letter.
pub open spec fn is_same_path(a: Seq<char>, b: Seq<char>) -> bool {
    &&& is_rooted(a) == is_rooted(b)
    &&& starts_here(a) == starts_here(b)
    &&& names(a) == names(b)
}

spec fn texts(list: Seq<Vec<char>>) -> Seq<Seq<char>> {
    Seq::new(list.len(), |i: int| list[i]@)
}

fn names_of(path: &[char]) -> (list: Vec<Vec<char>>)
    ensures
        texts(list@) == names(path@),
{
    let mut list: Vec<Vec<char>> = Vec::new();
    let mut at: usize = 0;
    assert(path@.skip(0) == path@);
    assert(texts(list@) + names(path@) =~= names(path@));
    while at < path.len()
        invariant
            at <= path@.len(),
            texts(list@) + names(path@.skip(at as int)) == names(path@),
        decreases path.len() - at,
    {
        let rest = &path[at..path.len()];
        assert(rest@ == path@.skip(at as int));
        let end = text::find_char(rest, '/');
        let ghost before = list@;
        let ghost behind = if end < rest@.len() {
            names(rest@.skip(end + 1))
        } else {
            Seq::empty()
        };
        let is_dot = end == 1 && rest[0] == '.';
        assert(is_dot ==> rest@.take(end as int) =~= seq!['.']);
        assert(rest@.take(end as int) =~= seq!['.'] ==> rest@.take(end as int)[0] == '.' && end == 1);
        if end > 0 && !is_dot {
            let mut name: Vec<char> = Vec::new();
            let mut i: usize = 0;
            while i < end
                invariant
                    i <= end <= rest@.len(),
                    name@ == rest@.take(i as int),
                decreases end - i,
            {
                name.push(rest[i]);
                i += 1;
            }
            list.push(name);
            assert(texts(list@) =~= texts(before).push(rest@.take(end as int)));
            assert(texts(before) + (seq![rest@.take(end as int)] + behind) =~= texts(list@)
                + behind);
        }
        if end < rest.len() {
            assert(rest@.skip(end + 1) =~= path@.skip(at + end + 1));
            at = at + end + 1;
        } else {
            assert(path@.skip(path@.len() as int) =~= Seq::empty());
            at = path.len();
        }
    }
    assert(path@.skip(at as int) =~= Seq::empty());
    assert(texts(list@) + Seq::<Seq<char>>::empty() =~= texts(list@));
    list
}

fn is_same_text(a: &Vec<char>, b: &Vec<char>) -> (same: bool)
    ensures
        same == (a@ == b@),
{
    if a.len() != b.len() {
        return false;
    }
    let mut i: usize = 0;
    while i < a.len()
        invariant
            i <= a@.len() == b@.len(),
            forall|k: int| 0 <= k < i ==> a@[k] == b@[k],
        decreases a.len() - i,
    {
        if a[i] != b[i] {
            return false;
        }
        i += 1;
    }
    assert(a@ =~= b@);
    true
}

/// Whether two texts name the same path.
pub fn same_path(a: &str, b: &str) -> (same: bool)
    ensures
        same == is_same_path(a@, b@),
{
    let x = text::chars_of(a);
    let y = text::chars_of(b);
    let x_rooted = x.len() > 0 && x[0] == '/';
    let y_rooted = y.len() > 0 && y[0] == '/';
    let x_here = x.len() > 0 && x[0] == '.' && (x.len() == 1 || x[1] == '/');
    let y_here = y.len() > 0 && y[0] == '.' && (y.len() == 1 || y[1] == '/');
    if x_rooted != y_rooted || x_here != y_here {
        return false;
    }
    let p = names_of(x.as_slice());
    let q = names_of(y.as_slice());
    if p.len() != q.len() {
        assert(texts(p@).len() != texts(q@).len());
        return false;
    }
    let mut i: usize = 0;
    while i < p.len()
        invariant
            i <= p@.len() == q@.len(),
            texts(p@) == names(a@),
            texts(q@) == names(b@),
            forall|k: int| 0 <= k < i ==> p@[k]@ == q@[k]@,
        decreases p.len() - i,
    {
        if !is_same_text(&p[i], &q[i]) {
            assert(texts(p@)[i as int] != texts(q@)[i as int]);
            return false;
        }
        i += 1;
    }
    assert(texts(p@) =~= texts(q@));
    true
}

/// Naming the same path is an equivalence.
pub proof fn lemma_same_path_is_an_equivalence(a: Seq<char>, b: Seq<char>, c: Seq<char>)
    ensures
        is_same_path(a, a),
        is_same_path(a, b) ==> is_same_path(b, a),
        is_same_path(a, b) && is_same_path(b, c) ==> is_same_path(a, c),
{
}

/// A path is made of the names of its parts: those before a slash, and then those behind it. A
/// part without a slash is one name, unless it is empty or a single dot.
pub proof fn lemma_names_of_parts_add_up(a: Seq<char>, b: Seq<char>, name: Seq<char>)
    requires
        forall|i: int| 0 <= i < name.len() ==> name[i] != '/',
    ensures
        names(a + seq!['/'] + b) == names(a) + names(b),
        names(name) == if name.len() == 0 || (name.len() == 1 && name[0] == '.') {
            Seq::<Seq<char>>::empty()
        } else {
            seq![name]
        },
{
    lemma_names_behind_a_slash(a, b);
    lemma_one_name(name);
}

proof fn lemma_one_name(name: Seq<char>)
    requires
        forall|i: int| 0 <= i < name.len() ==> name[i] != '/',
    ensures
        names(name) == if name.len() == 0 || (name.len() == 1 && name[0] == '.') {
            Seq::<Seq<char>>::empty()
        } else {
            seq![name]
        },
{
    if name.len() > 0 {
        text::lemma_position_of(name, '/');
        assert(name.take(name.len() as int) =~= name);
        assert(seq![name] + Seq::<Seq<char>>::empty() =~= seq![name]);
        if name.len() == 1 && name[0] == '.' {
            assert(name =~= seq!['.']);
        } else {
            assert(name != seq!['.']) by {
                if name == seq!['.'] {
                    assert(name.len() == 1 && name[0] == '.');
                }
            }
        }
    }
}

proof fn lemma_names_behind_a_slash(a: Seq<char>, b: Seq<char>)
    ensures
        names(a + seq!['/'] + b) == names(a) + names(b),
    decreases a.len(),
{
    let whole = a + seq!['/'] + b;
    let end = text::position_of(a, '/') as int;
    text::lemma_position_of(a, '/');
    text::lemma_position_of(whole, '/');
    let at = text::position_of(whole, '/') as int;
    assert forall|i: int| 0 <= i < end implies whole[i] != '/' by {
        assert(whole[i] == a[i]);
    }
    assert(whole[end] == '/');
    assert(at == end);
    assert(whole.take(end) =~= a.take(end));
    if end < a.len() {
        lemma_names_behind_a_slash(a.skip(end + 1), b);
        assert(whole.skip(end + 1) =~= a.skip(end + 1) + seq!['/'] + b);
        assert(names(whole) =~= names(a) + names(b));
    } else {
        assert(whole.skip(end + 1) =~= b);
        if a.len() > 0 {
            assert(names(whole) =~= names(a) + names(b));
        } else {
            assert(names(a) =~= Seq::<Seq<char>>::empty());
            assert(names(whole) =~= names(a) + names(b));
        }
    }
}

/// Slashes in a row name the same path as one, and so does a slash at the end, or a dot between
/// two slashes. A path from the root is none that starts elsewhere, and paths with other names
/// are other paths.
pub proof fn lemma_spellings_of_a_path(a: Seq<char>, b: Seq<char>)
    requires
        a.len() > 0,
    ensures
        is_same_path(a + seq!['/'] + (seq!['/'] + b), a + seq!['/'] + b),
        is_same_path(a + seq!['/'] + (seq!['.', '/'] + b), a + seq!['/'] + b),
        is_same_path(a + seq!['/'], a),
        a[0] != '/' ==> !is_same_path(seq!['/'] + a, a),
        names(a) != names(b) ==> !is_same_path(a, b),
{
    let empty = Seq::<char>::empty();
    let dot = seq!['.'];
    lemma_names_behind_a_slash(a, b);
    lemma_names_behind_a_slash(a, seq!['/'] + b);
    lemma_names_behind_a_slash(empty, b);
    assert(empty + seq!['/'] + b =~= seq!['/'] + b);
    assert(names(empty) + names(b) =~= names(b));
    lemma_names_behind_a_slash(dot, b);
    assert(dot + seq!['/'] + b =~= seq!['.', '/'] + b);
    lemma_one_name(dot);
    assert(names(dot) + names(b) =~= names(b));
    lemma_names_behind_a_slash(a, seq!['.', '/'] + b);
    lemma_names_behind_a_slash(a, empty);
    assert(a + seq!['/'] + empty =~= a + seq!['/']);
    assert(names(a) + names(empty) =~= names(a));
    assert((seq!['/'] + a)[0] == '/');
    let x = a + seq!['/'] + (seq!['/'] + b);
    let y = a + seq!['/'] + b;
    let z = a + seq!['/'] + (seq!['.', '/'] + b);
    let w = a + seq!['/'];
    assert(x[0] == a[0] && y[0] == a[0] && z[0] == a[0] && w[0] == a[0]);
    if a.len() > 1 {
        assert(x[1] == a[1] && y[1] == a[1] && z[1] == a[1] && w[1] == a[1]);
    } else {
        assert(x[1] == '/' && y[1] == '/' && z[1] == '/' && w[1] == '/');
    }
}

/// Whether a path starts with a name: neither at the root nor with a dot for the current
/// directory. A name may itself start with a dot.
pub open spec fn starts_with_a_name(path: Seq<char>) -> bool {
    path.len() > 0 && path[0] != '/' && (path[0] == '.' ==> path.len() > 1 && path[1] != '/')
}

/// Where two paths start decides whether they can be the same: paths that both start with a
/// name, at the root, or at the current directory are told apart by their names alone, and a
/// path of one kind is never one of another.
pub proof fn lemma_start_of_a_path_counts(a: Seq<char>, b: Seq<char>)
    ensures
        starts_with_a_name(a) && starts_with_a_name(b) ==> (is_same_path(a, b) <==> names(a)
            == names(b)),
        is_same_path(seq!['/'] + a, seq!['/'] + b) <==> names(a) == names(b),
        is_same_path(seq!['.', '/'] + a, seq!['.', '/'] + b) <==> names(a) == names(b),
        starts_with_a_name(a) ==> !is_same_path(seq!['.', '/'] + b, a) && !is_same_path(
            seq!['/'] + b,
            a,
        ),
        !is_same_path(seq!['.', '/'] + a, seq!['/'] + b),
        !is_same_path(Seq::empty(), seq!['/'] + a),
        !is_same_path(Seq::empty(), seq!['.', '/'] + a),
{
    let empty = Seq::<char>::empty();
    let dot = seq!['.'];
    lemma_one_name(empty);
    lemma_one_name(dot);
    lemma_names_behind_a_slash(empty, a);
    lemma_names_behind_a_slash(empty, b);
    lemma_names_behind_a_slash(dot, a);
    lemma_names_behind_a_slash(dot, b);
    assert(empty + seq!['/'] + a =~= seq!['/'] + a);
    assert(empty + seq!['/'] + b =~= seq!['/'] + b);
    assert(dot + seq!['/'] + a =~= seq!['.', '/'] + a);
    assert(dot + seq!['/'] + b =~= seq!['.', '/'] + b);
    assert(Seq::<Seq<char>>::empty() + names(a) =~= names(a));
    assert(Seq::<Seq<char>>::empty() + names(b) =~= names(b));
    assert((seq!['/'] + a)[0] == '/' && (seq!['/'] + b)[0] == '/');
    assert((seq!['.', '/'] + a)[0] == '.' && (seq!['.', '/'] + a)[1] == '/');
    assert((seq!['.', '/'] + b)[0] == '.' && (seq!['.', '/'] + b)[1] == '/');
}

} // verus!
