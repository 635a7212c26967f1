//! When two paths name the same place, component by component.
use vstd::prelude::*;

use crate::text;
use crate::viewport;

verus! {

/// The pieces of a path between its separators.
pub open spec fn pieces(path: Seq<char>) -> Seq<Seq<char>>
    decreases path.len(),
{
    if path.len() == 0 {
        seq![Seq::empty()]
    } else {
        let before = pieces(path.drop_last());
        if path.last() == '/' {
            before.push(Seq::empty())
        } else {
            before.drop_last().push(before.last().push(path.last()))
        }
    }
}

/// The components among the first `n` pieces: those that are not empty and,
/// but for the very first one, not `.`.
pub open spec fn kept(all: Seq<Seq<char>>, n: int) -> Seq<Seq<char>>
    decreases n,
{
    if n <= 0 {
        Seq::empty()
    } else {
        let before = kept(all, n - 1);
        let piece = all[n - 1];
        if piece.len() > 0 && (n == 1 || piece != "."@) {
            before.push(piece)
        } else {
            before
        }
    }
}

/// The components of a path. Repeated and trailing separators add none.
pub open spec fn components(path: Seq<char>) -> Seq<Seq<char>> {
    kept(pieces(path), pieces(path).len() as int)
}

/// Whether a path starts at the root.
pub open spec fn absolute(path: Seq<char>) -> bool {
    path.len() > 0 && path[0] == '/'
}

/// Whether two paths are equal, component by component.
pub open spec fn same(a: Seq<char>, b: Seq<char>) -> bool {
    absolute(a) == absolute(b) && components(a) == components(b)
}

/// Whether two optional paths are equal.
pub open spec fn same_option(a: Option<Seq<char>>, b: Option<Seq<char>>) -> bool {
    match (a, b) {
        (Some(a), Some(b)) => same(a, b),
        (None, None) => true,
        _ => false,
    }
}

/// Whether a path starts at the root, and its components.
fn split(path: &str) -> (r: (bool, Vec<String>))
    ensures
        r.0 == absolute(path@),
        viewport::string_views(r.1@) == components(path@),
{
    let mut rooted: bool = false;
    let mut all: Vec<String> = Vec::new();
    let mut current: String = String::new();
    assert(path@.take(0) =~= Seq::<char>::empty());
    assert(viewport::string_views(all@).push(current@) =~= pieces(path@.take(0)));
    for c in it: path.chars()
        invariant
            it.seq() == path@,
            rooted <==> it.index() > 0 && path@[0] == '/',
            viewport::string_views(all@).push(current@) == pieces(path@.take(it.index() as int)),
    {
        let ghost done = it.index() as int;
        let ghost before = viewport::string_views(all@).push(current@);
        proof {
            assert(path@.take(done + 1).drop_last() =~= path@.take(done));
            assert(path@.take(done + 1).last() == c);
            assert(before.last() == current@);
            assert(before.drop_last() =~= viewport::string_views(all@));
        }
        if c == '/' {
            if all.len() == 0 && current.as_str().is_empty() {
                proof {
                    lemma_no_piece(path@.take(done));
                }
                rooted = true;
            }
            proof {
                if done == 0 {
                    assert(before =~= pieces(path@.take(0)));
                    assert(before.len() == 1);
                    assert(before.last() =~= Seq::<char>::empty());
                }
            }
            all.push(current);
            current = String::new();
            assert(viewport::string_views(all@) =~= before);
        } else {
            current.push(c);
        }
        assert(viewport::string_views(all@).push(current@) =~= pieces(path@.take(done + 1)));
    }
    all.push(current);
    proof {
        assert(path@.take(path@.len() as int) =~= path@);
        assert(viewport::string_views(all@) =~= pieces(path@));
    }
    let mut out: Vec<String> = Vec::new();
    let mut first: bool = true;
    let ghost whole = all@;
    assert(viewport::string_views(out@) =~= kept(pieces(path@), 0));
    for piece in it: all
        invariant
            it.seq() == whole,
            viewport::string_views(whole) == pieces(path@),
            first <==> it.index() == 0,
            viewport::string_views(out@) == kept(pieces(path@), it.index() as int),
    {
        let ghost before = viewport::string_views(out@);
        assert(piece@ == pieces(path@)[it.index() as int]);
        if !piece.as_str().is_empty() && (first || !text::same_text(piece.as_str(), ".")) {
            out.push(piece);
            assert(viewport::string_views(out@) =~= before.push(piece@));
        }
        first = false;
    }
    (rooted, out)
}

/// Only the empty path has no piece before its only, empty one.
proof fn lemma_no_piece(path: Seq<char>)
    requires
        pieces(path).len() == 1,
        pieces(path)[0].len() == 0,
    ensures
        path.len() == 0,
{
    if path.len() > 0 {
        lemma_some_piece(path.drop_last());
    }
}

proof fn lemma_some_piece(path: Seq<char>)
    ensures
        pieces(path).len() >= 1,
    decreases path.len(),
{
    if path.len() > 0 {
        lemma_some_piece(path.drop_last());
    }
}

/// Whether two lists of texts are equal.
fn same_texts(a: &Vec<String>, b: &Vec<String>) -> (r: bool)
    ensures
        r == (viewport::string_views(a@) == viewport::string_views(b@)),
{
    let ghost left = viewport::string_views(a@);
    let ghost right = viewport::string_views(b@);
    if a.len() != b.len() {
        assert(left.len() != right.len());
        return false;
    }
    let mut i: usize = 0;
    while i < a.len()
        invariant
            i <= a@.len() == b@.len(),
            left == viewport::string_views(a@),
            right == viewport::string_views(b@),
            forall|k: int| 0 <= k < i ==> #[trigger] left[k] == right[k],
        decreases a@.len() - i,
    {
        if !text::same_text(a[i].as_str(), b[i].as_str()) {
            assert(left[i as int] != right[i as int]);
            return false;
        }
        i += 1;
    }
    assert(left =~= right);
    true
}

/// Whether two paths are equal, component by component.
pub fn same_path(a: &str, b: &str) -> (r: bool)
    ensures
        r == same(a@, b@),
{
    let (a_rooted, a_parts) = split(a);
    let (b_rooted, b_parts) = split(b);
    a_rooted == b_rooted && same_texts(&a_parts, &b_parts)
}

/// Whether two optional paths are equal.
pub fn same_option_path(a: &Option<String>, b: &Option<String>) -> (r: bool)
    ensures
        r == same_option(text::option_view(*a), text::option_view(*b)),
{
    match (a, b) {
        (Some(a), Some(b)) => same_path(a.as_str(), b.as_str()),
        (None, None) => true,
        _ => false,
    }
}

/// Every path is equal to itself, and to itself with one more separator at its
/// end where it is not empty.
pub proof fn law_trailing_separator(path: Seq<char>)
    ensures
        same(path, path),
        path.len() > 0 ==> same(path, path.push('/')),
{
    if path.len() > 0 {
        let longer = path.push('/');
        assert(longer.drop_last() =~= path);
        assert(longer.last() == '/');
        let all = pieces(path);
        lemma_some_piece(path);
        lemma_kept_prefix(all, pieces(longer), all.len() as int);
    }
}

proof fn lemma_kept_prefix(a: Seq<Seq<char>>, b: Seq<Seq<char>>, n: int)
    requires
        0 <= n <= a.len() <= b.len(),
        forall|k: int| 0 <= k < a.len() ==> #[trigger] b[k] == a[k],
    ensures
        kept(a, n) == kept(b, n),
    decreases n,
{
    if n > 0 {
        lemma_kept_prefix(a, b, n - 1);
        assert(b[n - 1] == a[n - 1]);
    }
}

/// Names with a separator between two of them.
pub open spec fn joined(names: Seq<Seq<char>>) -> Seq<char>
    decreases names.len(),
{
    if names.len() == 0 {
        Seq::empty()
    } else if names.len() == 1 {
        names[0]
    } else {
        joined(names.drop_last()).push('/') + names.last()
    }
}

/// Whether a text is the name of a file or directory: not empty, without a
/// separator, and not the dot that stands for the same directory.
pub open spec fn is_name(s: Seq<char>) -> bool {
    &&& s.len() > 0
    &&& s != "."@
    &&& forall|i: int| 0 <= i < s.len() ==> #[trigger] s[i] != '/'
}

proof fn lemma_pieces_go_on(path: Seq<char>, name: Seq<char>)
    requires
        forall|i: int| 0 <= i < name.len() ==> #[trigger] name[i] != '/',
    ensures
        pieces(path + name) == pieces(path).drop_last().push(pieces(path).last() + name),
    decreases name.len(),
{
    lemma_some_piece(path);
    if name.len() == 0 {
        assert(path + name =~= path);
        assert(pieces(path).last() + name =~= pieces(path).last());
        assert(pieces(path) =~= pieces(path).drop_last().push(pieces(path).last()));
    } else {
        let front = name.drop_last();
        lemma_pieces_go_on(path, front);
        assert((path + name).drop_last() =~= path + front);
        assert((path + name).last() == name[name.len() - 1]);
        let before = pieces(path + front);
        assert(before.drop_last() =~= pieces(path).drop_last());
        assert(before.last().push(name.last()) =~= pieces(path).last() + name);
    }
}

proof fn lemma_pieces_step(path: Seq<char>, name: Seq<char>)
    requires
        forall|i: int| 0 <= i < name.len() ==> #[trigger] name[i] != '/',
    ensures
        pieces(path.push('/') + name) == pieces(path).push(name),
{
    let start = path.push('/');
    assert(start.drop_last() =~= path);
    lemma_pieces_go_on(start, name);
    assert(pieces(start) == pieces(path).push(Seq::empty()));
    assert(pieces(start).drop_last() =~= pieces(path));
    assert(Seq::<char>::empty() + name =~= name);
}

proof fn lemma_pieces_of_names(names: Seq<Seq<char>>)
    requires
        names.len() > 0,
        forall|k: int| 0 <= k < names.len() ==> is_name(#[trigger] names[k]),
    ensures
        pieces(joined(names)) == names,
        pieces(seq!['/'] + joined(names)) == seq![Seq::<char>::empty()] + names,
        joined(names).len() > 0,
        joined(names)[0] != '/',
    decreases names.len(),
{
    let empty = Seq::<char>::empty();
    assert(is_name(names[names.len() - 1]));
    if names.len() == 1 {
        let name = names[0];
        lemma_pieces_go_on(empty, name);
        assert(empty + name =~= name);
        assert(pieces(empty).drop_last().push(pieces(empty).last() + name) =~= names);
        lemma_pieces_step(empty, name);
        assert(empty.push('/') + name =~= seq!['/'] + name);
        assert(pieces(empty).push(name) =~= seq![empty] + names);
    } else {
        let front = names.drop_last();
        assert forall|k: int| 0 <= k < front.len() implies is_name(#[trigger] front[k]) by {
            assert(front[k] == names[k]);
        }
        lemma_pieces_of_names(front);
        lemma_pieces_step(joined(front), names.last());
        assert(front.push(names.last()) =~= names);
        let rooted = seq!['/'] + joined(front);
        lemma_pieces_step(rooted, names.last());
        assert(rooted.push('/') + names.last() =~= seq!['/'] + joined(names));
        assert((seq![empty] + front).push(names.last()) =~= seq![empty] + names);
        assert(joined(names)[0] == joined(front)[0]);
    }
}

proof fn lemma_kept_names(all: Seq<Seq<char>>, names: Seq<Seq<char>>, skipped: int, n: int)
    requires
        0 <= skipped <= n <= all.len(),
        all.len() == skipped + names.len(),
        forall|k: int| 0 <= k < skipped ==> (#[trigger] all[k]).len() == 0,
        forall|k: int| 0 <= k < names.len() ==> #[trigger] names[k] == all[skipped + k],
        forall|k: int| 0 <= k < names.len() ==> is_name(#[trigger] names[k]),
    ensures
        kept(all, n) == names.take(n - skipped),
    decreases n,
{
    if n == skipped {
        lemma_kept_nothing(all, n);
        assert(names.take(0) =~= Seq::<Seq<char>>::empty());
    } else {
        lemma_kept_names(all, names, skipped, n - 1);
        let name = names[n - 1 - skipped];
        assert(name == all[skipped + (n - 1 - skipped)]);
        assert(is_name(name));
        assert(names.take(n - skipped) =~= names.take(n - 1 - skipped).push(name));
    }
}

proof fn lemma_kept_nothing(all: Seq<Seq<char>>, n: int)
    requires
        0 <= n <= all.len(),
        forall|k: int| 0 <= k < n ==> (#[trigger] all[k]).len() == 0,
    ensures
        kept(all, n) == Seq::<Seq<char>>::empty(),
    decreases n,
{
    if n > 0 {
        lemma_kept_nothing(all, n - 1);
        assert(all[n - 1].len() == 0);
    }
}

proof fn lemma_names_are_components(names: Seq<Seq<char>>)
    requires
        names.len() > 0,
        forall|k: int| 0 <= k < names.len() ==> is_name(#[trigger] names[k]),
    ensures
        components(joined(names)) == names,
        components(seq!['/'] + joined(names)) == names,
        !absolute(joined(names)),
        absolute(seq!['/'] + joined(names)),
{
    lemma_pieces_of_names(names);
    lemma_kept_names(names, names, 0, names.len() as int);
    assert(names.take(names.len() as int) =~= names);
    let rooted = seq![Seq::<char>::empty()] + names;
    lemma_kept_names(rooted, names, 1, rooted.len() as int);
}

/// Two paths of names are equal exactly where they go through the same names in
/// the same order, and both start at the root or neither does.
pub proof fn law_which_paths_are_equal(a: Seq<Seq<char>>, b: Seq<Seq<char>>)
    requires
        a.len() > 0,
        b.len() > 0,
        forall|k: int| 0 <= k < a.len() ==> is_name(#[trigger] a[k]),
        forall|k: int| 0 <= k < b.len() ==> is_name(#[trigger] b[k]),
    ensures
        same(joined(a), joined(b)) <==> a == b,
        same(seq!['/'] + joined(a), seq!['/'] + joined(b)) <==> a == b,
        !same(joined(a), seq!['/'] + joined(b)),
{
    lemma_names_are_components(a);
    lemma_names_are_components(b);
}

/// More separators at the end of a path, and dots between them, do not count.
pub proof fn law_dots_and_separators_at_the_end(path: Seq<char>)
    requires
        path.len() > 0,
    ensures
        same(path, path.push('/').push('/')),
        same(path, path.push('/').push('.')),
{
    reveal_strlit(".");
    let dot = "."@;
    assert(dot =~= seq!['.']);
    law_trailing_separator(path);
    law_trailing_separator(path.push('/'));
    lemma_some_piece(path);
    lemma_pieces_step(path, dot);
    assert(path.push('/') + dot =~= path.push('/').push('.'));
    let all = pieces(path);
    let longer = path.push('/').push('.');
    lemma_kept_prefix(all, pieces(longer), all.len() as int);
}

/// There is a file, or there is none: equal paths name the same file, and no path
/// is equal to none.
pub proof fn law_optional_paths(a: Seq<char>, b: Seq<char>)
    ensures
        same_option(Some(a), Some(b)) <==> same(a, b),
        same_option(None, None),
        !same_option(Some(a), None),
        !same_option(None, Some(b)),
{
}

} // verus!
