//! Unix paths as text.

use vstd::prelude::*;
use vstd::string::*;

use crate::seqs;
use crate::text;

verus! {

/// A path without the separators and `.` components at its end. The root and a
/// lone `.` stay.
pub open spec fn trimmed_path(s: Seq<char>) -> Seq<char>
    decreases s.len(),
{
    if s.len() <= 1 {
        s
    } else if s.last() == '/' || (s.last() == '.' && s[s.len() - 2] == '/') {
        trimmed_path(s.drop_last())
    } else {
        s
    }
}

/// Where the last `/` of a text is, or -1.
pub open spec fn last_slash(s: Seq<char>) -> int
    decreases s.len(),
{
    if s.len() == 0 {
        -1
    } else if s.last() == '/' {
        s.len() - 1
    } else {
        last_slash(s.drop_last())
    }
}

/// The name at the end of a path, where it ends in one.
pub open spec fn name_of(path: Seq<char>) -> Option<Seq<char>> {
    let t = trimmed_path(path);
    let name = t.skip(last_slash(t) + 1);
    if name.len() == 0 || name == "."@ || name == ".."@ {
        None
    } else {
        Some(name)
    }
}

/// The path without its last component, where it has one besides the root.
pub open spec fn parent_of(path: Seq<char>) -> Option<Seq<char>> {
    let t = trimmed_path(path);
    if t.len() == 0 || t == "/"@ {
        None
    } else {
        Some(trimmed_path(t.take(last_slash(t) + 1)))
    }
}

/// Whether a path starts at the root.
pub open spec fn absolute(path: Seq<char>) -> bool {
    path.len() > 0 && path[0] == '/'
}

/// A path below another; an absolute path stands by itself.
pub open spec fn joined_path(base: Seq<char>, child: Seq<char>) -> Seq<char> {
    if absolute(child) {
        child
    } else if base.len() == 0 || base.last() == '/' {
        base + child
    } else {
        base + "/"@ + child
    }
}

/// The part of a file name after its last dot, where something stands before
/// that dot.
pub open spec fn extension_of(path: Seq<char>) -> Option<Seq<char>> {
    match name_of(path) {
        Some(name) => {
            let dot = last_dot(name);
            if dot <= 0 {
                None
            } else {
                Some(name.skip(dot + 1))
            }
        },
        None => None,
    }
}

/// Where the last `.` of a text is, or -1.
pub open spec fn last_dot(s: Seq<char>) -> int
    decreases s.len(),
{
    if s.len() == 0 {
        -1
    } else if s.last() == '.' {
        s.len() - 1
    } else {
        last_dot(s.drop_last())
    }
}

/// Whether a piece between separators is a component by itself.
pub open spec fn is_component(piece: Seq<char>) -> bool {
    piece.len() > 0 && piece != "."@
}

/// The components of a path behind the root: `.` counts only where a path
/// starts with it.
pub open spec fn components_of(path: Seq<char>) -> Seq<Seq<char>> {
    let pieces = text::split(path, '/');
    let named = pieces.filter(|p: Seq<char>| is_component(p));
    if pieces.len() > 0 && pieces[0] == "."@ {
        seq!["."@] + named
    } else {
        named
    }
}

/// Whether two paths have the same components.
pub open spec fn same_path(a: Seq<char>, b: Seq<char>) -> bool {
    absolute(a) == absolute(b) && components_of(a) == components_of(b)
}

/// A path written with its components alone: without doubled separators, `.`
/// components inside it and a separator at its end.
pub open spec fn normal_path(path: Seq<char>) -> Seq<char> {
    let names = text::joined(components_of(path), "/"@);
    if absolute(path) {
        "/"@ + names
    } else {
        names
    }
}

/// Whether a path is another one or lies below it. Every path lies below the
/// empty one.
pub open spec fn within(path: Seq<char>, base: Seq<char>) -> bool {
    ||| !absolute(base) && components_of(base).len() == 0
    ||| absolute(path) == absolute(base) && components_of(base).is_prefix_of(components_of(path))
}

// ---------------------------------------------------------------------------
// Facts about parents
// ---------------------------------------------------------------------------

proof fn lemma_find_split(s: Seq<char>)
    ensures
        0 <= text::find_from(s, '/', 0) <= s.len(),
        text::find_from(s, '/', 0) < s.len() ==> s[text::find_from(s, '/', 0)] == '/',
        forall|k: int| 0 <= k < text::find_from(s, '/', 0) ==> s[k] != '/',
{
    lemma_find_from_facts(s, 0);
}

proof fn lemma_find_from_facts(s: Seq<char>, from: int)
    requires
        0 <= from <= s.len(),
    ensures
        from <= text::find_from(s, '/', from) <= s.len(),
        text::find_from(s, '/', from) < s.len() ==> s[text::find_from(s, '/', from)] == '/',
        forall|k: int| from <= k < text::find_from(s, '/', from) ==> s[k] != '/',
    decreases s.len() - from,
{
    if from < s.len() && s[from] != '/' {
        lemma_find_from_facts(s, from + 1);
    }
}

proof fn lemma_find_none(s: Seq<char>, from: int)
    requires
        0 <= from <= s.len(),
        forall|k: int| from <= k < s.len() ==> s[k] != '/',
    ensures
        text::find_from(s, '/', from) == s.len(),
    decreases s.len() - from,
{
    if from < s.len() {
        lemma_find_none(s, from + 1);
    }
}

/// A piece behind a separator is the last piece.
proof fn lemma_split_append(a: Seq<char>, b: Seq<char>)
    requires
        forall|k: int| 0 <= k < b.len() ==> b[k] != '/',
    ensures
        text::split(a + seq!['/'] + b, '/') == text::split(a, '/').push(b),
        text::split(a, '/').len() > 0,
    decreases a.len(),
{
    let s = a + seq!['/'] + b;
    lemma_find_split(a);
    let i = text::find_from(a, '/', 0);
    if i < a.len() {
        assert(s[i] == '/');
        assert forall|k: int| 0 <= k < i implies s[k] != '/' by {
            assert(s[k] == a[k]);
        }
        text::lemma_find_from(s, '/', 0, i);
        let rest = a.skip(i + 1);
        assert(s.skip(i + 1) =~= rest + seq!['/'] + b);
        assert(s.take(i) =~= a.take(i));
        lemma_split_append(rest, b);
        assert(text::split(s, '/') =~= text::split(a, '/').push(b));
    } else {
        assert(s[a.len() as int] == '/');
        assert forall|k: int| 0 <= k < a.len() implies s[k] != '/' by {
            assert(s[k] == a[k]);
        }
        text::lemma_find_from(s, '/', 0, a.len() as int);
        assert(s.take(a.len() as int) =~= a);
        assert(s.skip(a.len() as int + 1) =~= b);
        lemma_find_none(b, 0);
        assert(text::split(b, '/') =~= seq![b]);
        assert(text::split(a, '/') =~= seq![a]);
        assert(text::split(s, '/') =~= seq![a, b]);
        assert(text::split(a, '/').push(b) =~= seq![a, b]);
    }
}

/// A piece behind a separator adds a component where it is one.
pub proof fn lemma_components_append(a: Seq<char>, b: Seq<char>)
    requires
        forall|k: int| 0 <= k < b.len() ==> b[k] != '/',
    ensures
        components_of(a + seq!['/'] + b) == if is_component(b) {
            components_of(a).push(b)
        } else {
            components_of(a)
        },
{
    lemma_split_append(a, b);
    let p = |x: Seq<char>| is_component(x);
    let pieces = text::split(a, '/');
    let more = pieces.push(b);
    assert(more.drop_last() =~= pieces);
    assert(more.filter(p) == if p(b) {
        pieces.filter(p).push(b)
    } else {
        pieces.filter(p)
    }) by {
        reveal(Seq::filter);
    }
    assert(more[0] == pieces[0]);
    if is_component(b) {
        assert(components_of(a + seq!['/'] + b) =~= components_of(a).push(b));
    }
}

/// Trimming a path changes none of its components.
proof fn lemma_trim_components(s: Seq<char>)
    ensures
        components_of(trimmed_path(s)) == components_of(s),
        absolute(trimmed_path(s)) == absolute(s),
        trimmed_path(s).len() <= s.len(),
        trimmed_path(s).len() > 1 ==> trimmed_path(s).last() != '/' && !(trimmed_path(s).last()
            == '.' && trimmed_path(s)[trimmed_path(s).len() - 2] == '/'),
    decreases s.len(),
{
    if s.len() > 1 && (s.last() == '/' || (s.last() == '.' && s[s.len() - 2] == '/')) {
        let shorter = s.drop_last();
        lemma_trim_components(shorter);
        reveal_strlit(".");
        if s.last() == '/' {
            assert(s =~= shorter + seq!['/'] + Seq::<char>::empty());
            lemma_components_append(shorter, Seq::empty());
        } else {
            let front = shorter.drop_last();
            assert(shorter =~= front + seq!['/'] + Seq::<char>::empty());
            assert(s =~= front + seq!['/'] + seq!['.']);
            assert("."@ =~= seq!['.']);
            lemma_components_append(front, Seq::empty());
            lemma_components_append(front, seq!['.']);
        }
        assert(shorter[0] == s[0]);
    }
}

pub proof fn lemma_last_slash(s: Seq<char>)
    ensures
        -1 <= last_slash(s) < s.len(),
        last_slash(s) >= 0 ==> s[last_slash(s)] == '/',
        forall|k: int| last_slash(s) < k < s.len() ==> s[k] != '/',
    decreases s.len(),
{
    if s.len() > 0 && s.last() != '/' {
        lemma_last_slash(s.drop_last());
        assert forall|k: int| last_slash(s) < k < s.len() implies s[k] != '/' by {
            if k < s.len() - 1 {
                assert(s.drop_last()[k] == s[k]);
            }
        }
    }
}

/// The parent of a path has its components but for the last, and is shorter. A
/// path with components has a parent.
pub proof fn lemma_parent(path: Seq<char>)
    ensures
        parent_of(path) matches Some(p) ==> {
            &&& components_of(path).len() > 0
            &&& components_of(p) == components_of(path).drop_last()
            &&& p.len() < path.len()
            &&& absolute(p) == absolute(path)
        },
        components_of(path).len() > 0 ==> parent_of(path) is Some,
{
    let t = trimmed_path(path);
    lemma_trim_components(path);
    lemma_last_slash(t);
    reveal_strlit("/");
    reveal_strlit(".");
    let k = last_slash(t);
    if t.len() == 0 {
        lemma_find_none(t, 0);
        assert(text::split(t, '/') =~= seq![t]);
        lemma_filter_one(t);
    } else if t == "/"@ {
        assert(t =~= Seq::<char>::empty() + seq!['/'] + Seq::<char>::empty());
        lemma_components_append(Seq::empty(), Seq::empty());
        lemma_find_none(Seq::<char>::empty(), 0);
        assert(text::split(Seq::<char>::empty(), '/') =~= seq![Seq::<char>::empty()]);
        lemma_filter_one(Seq::<char>::empty());
    } else if k < 0 {
        // A single component.
        lemma_find_none(t, 0);
        assert(text::split(t, '/') =~= seq![t]);
        lemma_filter_one(t);
        let e = t.take(0);
        assert(e =~= Seq::<char>::empty());
        lemma_find_none(e, 0);
        assert(text::split(e, '/') =~= seq![e]);
        lemma_filter_one(e);
        assert(trimmed_path(e) == e);
        assert(components_of(e) =~= Seq::<Seq<char>>::empty());
        assert(components_of(t).drop_last() =~= Seq::<Seq<char>>::empty());
        assert(t[0] != '/');
    } else {
        let front = t.take(k);
        let name = t.skip(k + 1);
        assert(t =~= front + seq!['/'] + name);
        assert forall|i: int| 0 <= i < name.len() implies name[i] != '/' by {
            assert(name[i] == t[k + 1 + i]);
        }
        if name.len() == 0 {
            assert(t.last() == '/');
            assert(t.len() == 1);
            assert(t =~= "/"@);
        }
        if name == "."@ {
            assert(t.last() == '.');
            assert(t[t.len() - 2] == '/');
        }
        lemma_components_append(front, name);
        let up = t.take(k + 1);
        assert(up =~= front + seq!['/'] + Seq::<char>::empty());
        lemma_components_append(front, Seq::empty());
        lemma_trim_components(up);
        assert(components_of(path).drop_last() =~= components_of(front));
        assert(up[0] == t[0]);
    }
}

proof fn lemma_filter_one(x: Seq<char>)
    ensures
        seq![x].filter(|p: Seq<char>| is_component(p)) == if is_component(x) {
            seq![x]
        } else {
            Seq::<Seq<char>>::empty()
        },
{
    reveal(Seq::filter);
    let p = |y: Seq<char>| is_component(y);
    let s = seq![x];
    assert(s.drop_last() =~= Seq::<Seq<char>>::empty());
    assert(s.drop_last().filter(p) =~= Seq::<Seq<char>>::empty());
    assert(s.filter(p) =~= if is_component(x) {
        seq![x]
    } else {
        Seq::<Seq<char>>::empty()
    });
}

// ---------------------------------------------------------------------------
// Facts about components
// ---------------------------------------------------------------------------

/// The pieces between separators hold none.
proof fn lemma_split_pieces(s: Seq<char>)
    ensures
        forall|i: int, k: int|
            0 <= i < text::split(s, '/').len() && 0 <= k < text::split(s, '/')[i].len()
                ==> #[trigger] text::split(s, '/')[i][k] != '/',
    decreases s.len(),
{
    lemma_find_split(s);
    let at = text::find_from(s, '/', 0);
    if at < s.len() {
        let rest = s.skip(at + 1);
        lemma_split_pieces(rest);
        let all = text::split(s, '/');
        let tail = text::split(rest, '/');
        assert(all == seq![s.take(at)] + tail);
        assert forall|i: int, k: int|
            0 <= i < all.len() && 0 <= k < all[i].len() implies #[trigger] all[i][k] != '/' by {
            if i > 0 {
                assert(all[i] == tail[i - 1]);
                assert(tail[i - 1][k] != '/');
            }
        }
    } else {
        assert(text::split(s, '/') =~= seq![s]);
    }
}

/// Whether texts are the components of a path.
spec fn are_components(names: Seq<Seq<char>>, absolute: bool) -> bool {
    &&& forall|i: int| 0 <= i < names.len() ==> (#[trigger] names[i]).len() > 0
    &&& forall|i: int, k: int|
        0 <= i < names.len() && 0 <= k < names[i].len() ==> #[trigger] names[i][k] != '/'
    &&& forall|i: int| 0 <= i < names.len() && (i > 0 || absolute) ==> #[trigger] names[i] != "."@
}

proof fn lemma_components_are(path: Seq<char>)
    ensures
        are_components(components_of(path), absolute(path)),
{
    reveal_strlit(".");
    let p = |x: Seq<char>| is_component(x);
    let pieces = text::split(path, '/');
    let named = pieces.filter(p);
    let all = components_of(path);
    lemma_split_pieces(path);
    assert forall|i: int| 0 <= i < named.len() implies is_component(#[trigger] named[i])
        && pieces.contains(named[i]) by {
        pieces.lemma_filter_pred(p, i);
        assert(named.contains(named[i]));
        pieces.lemma_filter_contains_rev(p, named[i]);
    }
    let shift = if pieces.len() > 0 && pieces[0] == "."@ {
        1int
    } else {
        0int
    };
    assert forall|i: int| shift <= i < all.len() implies #[trigger] all[i] == named[i - shift] by {}
    if shift == 1 {
        lemma_find_split(path);
        assert(pieces[0][0] == '.');
        assert(path[0] == '.');
    }
    assert forall|i: int, k: int|
        0 <= i < all.len() && 0 <= k < all[i].len() implies #[trigger] all[i][k] != '/' by {
        if i >= shift {
            let j = choose|j: int| 0 <= j < pieces.len() && pieces[j] == named[i - shift];
            assert(pieces[j][k] != '/');
        }
    }
}

/// The components of a text without separators.
pub proof fn lemma_one_piece(t: Seq<char>)
    requires
        forall|k: int| 0 <= k < t.len() ==> t[k] != '/',
    ensures
        components_of(t) == if t.len() == 0 {
            Seq::<Seq<char>>::empty()
        } else {
            seq![t]
        },
{
    reveal_strlit(".");
    lemma_find_none(t, 0);
    assert(text::split(t, '/') =~= seq![t]);
    lemma_filter_one(t);
    if t == "."@ {
        assert(seq!["."@] + Seq::<Seq<char>>::empty() =~= seq![t]);
    }
}

/// Components behind each other, with or without the root before them, are the
/// components of that path.
proof fn lemma_joined_components(names: Seq<Seq<char>>, root: bool)
    requires
        are_components(names, root),
    ensures
        components_of(
            if root {
                "/"@ + text::joined(names, "/"@)
            } else {
                text::joined(names, "/"@)
            },
        ) == names,
        names.len() > 0 ==> text::joined(names, "/"@).len() > 0 && text::joined(names, "/"@)[0]
            == names[0][0],
    decreases names.len(),
{
    reveal_strlit("/");
    reveal_strlit(".");
    let empty = Seq::<char>::empty();
    let start = if root {
        "/"@
    } else {
        empty
    };
    let all = text::joined(names, "/"@);
    assert("/"@ =~= seq!['/']);
    assert(empty + all =~= all);
    lemma_one_piece(empty);
    if names.len() == 0 {
        assert(start + all =~= start);
        assert("/"@ =~= empty + seq!['/'] + empty);
        lemma_components_append(empty, empty);
        assert(names =~= Seq::<Seq<char>>::empty());
    } else if names.len() == 1 {
        let name = names[0];
        assert(names =~= seq![name]);
        if root {
            assert("/"@ + all =~= empty + seq!['/'] + name);
            lemma_components_append(empty, name);
            assert(Seq::<Seq<char>>::empty().push(name) =~= names);
        } else {
            assert forall|k: int| 0 <= k < name.len() implies name[k] != '/' by {
                assert(names[0][k] != '/');
            }
            lemma_one_piece(name);
        }
    } else {
        let front = names.drop_last();
        let name = names.last();
        assert(are_components(front, root)) by {
            assert forall|i: int, k: int|
                0 <= i < front.len() && 0 <= k < front[i].len() implies #[trigger] front[i][k]
                != '/' by {
                assert(names[i][k] != '/');
            }
            assert forall|i: int| 0 <= i < front.len() implies (#[trigger] front[i]).len() > 0 by {
                assert(names[i].len() > 0);
            }
            assert forall|i: int| 0 <= i < front.len() && (i > 0 || root) implies #[trigger] front[i]
                != "."@ by {
                assert(names[i] != "."@);
            }
        }
        lemma_joined_components(front, root);
        let before = text::joined(front, "/"@);
        assert forall|k: int| 0 <= k < name.len() implies name[k] != '/' by {
            assert(names[names.len() - 1][k] != '/');
        }
        assert(start + all =~= (start + before) + seq!['/'] + name);
        assert(empty + before =~= before);
        lemma_components_append(start + before, name);
        assert(names[names.len() - 1] != "."@);
        assert(front.push(name) =~= names);
    }
}

/// A path has the components of the path that is written with them alone.
proof fn lemma_normal_path(path: Seq<char>)
    ensures
        same_path(normal_path(path), path),
{
    reveal_strlit("/");
    let names = components_of(path);
    lemma_components_are(path);
    lemma_joined_components(names, absolute(path));
    if absolute(path) {
        assert(normal_path(path)[0] == '/');
    } else if names.len() > 0 {
        assert(names[0][0] != '/');
    }
}

/// Two paths are the same exactly when they are the same text once they are
/// written with their components alone.
pub proof fn law_same_paths_have_one_form(a: Seq<char>, b: Seq<char>)
    ensures
        same_path(a, b) <==> normal_path(a) == normal_path(b),
{
    lemma_normal_path(a);
    lemma_normal_path(b);
}

/// The name at the end of a path is its last component.
pub proof fn lemma_name(path: Seq<char>)
    ensures
        name_of(path) == {
            let names = components_of(path);
            if names.len() == 0 || names.last() == "."@ || names.last() == ".."@ {
                None
            } else {
                Some(names.last())
            }
        },
{
    let t = trimmed_path(path);
    lemma_trim_components(path);
    lemma_last_slash(t);
    let k = last_slash(t);
    let name = t.skip(k + 1);
    if k < 0 {
        assert(name =~= t);
        lemma_one_piece(t);
    } else {
        let front = t.take(k);
        assert(t =~= front + seq!['/'] + name);
        assert forall|i: int| 0 <= i < name.len() implies name[i] != '/' by {
            assert(name[i] == t[k + 1 + i]);
        }
        lemma_components_append(front, name);
        if name.len() == 0 {
            assert(t.last() == '/');
            assert(front =~= Seq::<char>::empty());
            lemma_one_piece(front);
        } else {
            assert(name != "."@) by {
                reveal_strlit(".");
                if name == "."@ {
                    assert(t.last() == name[0]);
                    assert(t[t.len() - 2] == t[k]);
                }
            }
            assert(components_of(t).last() == name);
        }
    }
}

/// Going up from below a directory does not leave the directory.
pub proof fn law_parent_stays_within(path: Seq<char>, base: Seq<char>)
    requires
        within(path, base),
        absolute(path) == absolute(base),
        !same_path(path, base),
    ensures
        parent_of(path) matches Some(p) && within(p, base) && absolute(p) == absolute(path),
{
    lemma_parent(path);
    let a = components_of(path);
    let b = components_of(base);
    assert(b.len() <= a.len());
    if b.len() == a.len() {
        assert(a =~= b);
    }
    assert(b =~= a.drop_last().take(b.len() as int));
}

// ---------------------------------------------------------------------------
// Executable forms
// ---------------------------------------------------------------------------

fn slash_before(cs: &Vec<char>, end: usize) -> (r: usize)
    requires
        end <= cs@.len(),
    ensures
        r == last_slash(cs@.take(end as int)) + 1,
        r <= end,
{
    let mut i: usize = end;
    while i > 0
        invariant
            i <= end <= cs@.len(),
            last_slash(cs@.take(end as int)) == last_slash(cs@.take(i as int)),
        decreases i,
    {
        assert(cs@.take(i as int).drop_last() =~= cs@.take(i - 1));
        if cs[i - 1] == '/' {
            return i;
        }
        i = i - 1;
    }
    0
}

fn trimmed_len(cs: &Vec<char>, end: usize) -> (r: usize)
    requires
        end <= cs@.len(),
    ensures
        r <= end,
        cs@.take(r as int) == trimmed_path(cs@.take(end as int)),
{
    let mut n: usize = end;
    while n > 1 && (cs[n - 1] == '/' || (cs[n - 1] == '.' && cs[n - 2] == '/'))
        invariant
            n <= end <= cs@.len(),
            trimmed_path(cs@.take(n as int)) == trimmed_path(cs@.take(end as int)),
        decreases n,
    {
        assert(cs@.take(n as int).drop_last() =~= cs@.take(n - 1));
        n = n - 1;
    }
    n
}

fn piece(cs: &Vec<char>, from: usize, to: usize) -> (r: String)
    requires
        from <= to <= cs@.len(),
    ensures
        r@ == cs@.subrange(from as int, to as int),
{
    let mut out = String::new();
    let mut i: usize = from;
    assert(out@ =~= cs@.subrange(from as int, from as int));
    while i < to
        invariant
            from <= i <= to <= cs@.len(),
            out@ == cs@.subrange(from as int, i as int),
        decreases to - i,
    {
        out.push(cs[i]);
        assert(out@ =~= cs@.subrange(from as int, i + 1));
        i = i + 1;
    }
    out
}

/// The name at the end of a path.
pub fn file_name(path: &str) -> (r: Option<String>)
    ensures
        r.deep_view() == name_of(path@),
{
    let cs = text::chars_of(path);
    let all: usize = cs.len();
    assert(cs@.take(all as int) =~= cs@);
    let n: usize = trimmed_len(&cs, all);
    let from: usize = slash_before(&cs, n);
    let name = piece(&cs, from, n);
    assert(name@ =~= cs@.take(n as int).skip(from as int));
    if name.as_str().is_empty() || text::str_eq(name.as_str(), ".") || text::str_eq(
        name.as_str(),
        "..",
    ) {
        None
    } else {
        Some(name)
    }
}

/// The path without its last component.
pub fn parent(path: &str) -> (r: Option<String>)
    ensures
        r.deep_view() == parent_of(path@),
{
    let cs = text::chars_of(path);
    let all: usize = cs.len();
    assert(cs@.take(all as int) =~= cs@);
    let n: usize = trimmed_len(&cs, all);
    proof {
        reveal_strlit("/");
        assert(n == 1 && cs@[0] == '/' ==> cs@.take(n as int) =~= "/"@);
    }
    if n == 0 || (n == 1 && cs[0] == '/') {
        return None;
    }
    let from: usize = slash_before(&cs, n);
    assert(cs@.take(n as int).take(from as int) =~= cs@.take(from as int));
    let m: usize = trimmed_len(&cs, from);
    let r = piece(&cs, 0, m);
    assert(r@ =~= cs@.take(m as int));
    Some(r)
}

/// Whether a path starts at the root.
pub fn is_absolute(path: &str) -> (r: bool)
    ensures
        r == absolute(path@),
{
    let cs = text::chars_of(path);
    cs.len() > 0 && cs[0] == '/'
}

/// A path below another.
pub fn join(base: &str, child: &str) -> (r: String)
    ensures
        r@ == joined_path(base@, child@),
{
    if is_absolute(child) {
        return child.to_string();
    }
    let cs = text::chars_of(base);
    if cs.len() == 0 || cs[cs.len() - 1] == '/' {
        base.to_string().concat(child)
    } else {
        base.to_string().concat("/").concat(child)
    }
}

/// The part of a file name after its last dot.
pub fn extension(path: &str) -> (r: Option<String>)
    ensures
        r.deep_view() == extension_of(path@),
{
    match file_name(path) {
        Some(name) => {
            let cs = text::chars_of(name.as_str());
            let n: usize = cs.len();
            let mut i: usize = n;
            assert(cs@.take(n as int) =~= cs@);
            while i > 0 && cs[i - 1] != '.'
                invariant
                    i <= n,
                    n == cs@.len(),
                    last_dot(cs@) == last_dot(cs@.take(i as int)),
                decreases i,
            {
                assert(cs@.take(i as int).drop_last() =~= cs@.take(i - 1));
                i = i - 1;
            }
            if i <= 1 {
                return None;
            }
            let r = piece(&cs, i, n);
            assert(r@ =~= cs@.skip(i as int));
            Some(r)
        },
        None => None,
    }
}

/// The components of a path behind the root.
pub fn components(path: &str) -> (r: Vec<String>)
    ensures
        r.deep_view() == components_of(path@),
{
    let pieces = text::split_text(path, '/');
    let ghost all = pieces.deep_view();
    let ghost p = |x: Seq<char>| is_component(x);
    let mut out: Vec<String> = Vec::new();
    let dotted = pieces.len() > 0 && text::str_eq(pieces[0].as_str(), ".");
    if dotted {
        out.push(".".to_string());
    }
    let ghost head = out.deep_view();
    let mut i: usize = 0;
    proof {
        seqs::lemma_filter_start(all, p);
        assert(head =~= head + all.take(0).filter(p));
    }
    while i < pieces.len()
        invariant
            i <= pieces@.len(),
            all == pieces.deep_view(),
            p == (|x: Seq<char>| is_component(x)),
            out.deep_view() == head + all.take(i as int).filter(p),
        decreases pieces@.len() - i,
    {
        let ghost before = out.deep_view();
        proof {
            seqs::lemma_filter_step(all, i as int, p);
        }
        if !pieces[i].as_str().is_empty() && !text::str_eq(pieces[i].as_str(), ".") {
            out.push(pieces[i].clone());
            assert(out.deep_view() =~= before.push(all[i as int]));
            assert(out.deep_view() =~= head + all.take(i + 1).filter(p));
        }
        i = i + 1;
    }
    assert(all.take(i as int) =~= all);
    assert(out.deep_view() =~= components_of(path@));
    out
}

fn starts_with_list(list: &Vec<String>, prefix: &Vec<String>) -> (r: bool)
    ensures
        r == prefix.deep_view().is_prefix_of(list.deep_view()),
{
    if prefix.len() > list.len() {
        return false;
    }
    let mut i: usize = 0;
    while i < prefix.len()
        invariant
            i <= prefix@.len() <= list@.len(),
            forall|k: int| 0 <= k < i ==> (#[trigger] prefix@[k])@ == list@[k]@,
        decreases prefix@.len() - i,
    {
        if !text::str_eq(prefix[i].as_str(), list[i].as_str()) {
            assert(prefix.deep_view()[i as int] != list.deep_view()[i as int]);
            return false;
        }
        i = i + 1;
    }
    assert(list.deep_view().take(prefix@.len() as int) =~= prefix.deep_view());
    true
}

/// Whether a path is another one or lies below it.
pub fn is_within(path: &str, base: &str) -> (r: bool)
    ensures
        r == within(path@, base@),
{
    let prefix = components(base);
    if !is_absolute(base) && prefix.len() == 0 {
        return true;
    }
    is_absolute(path) == is_absolute(base) && starts_with_list(&components(path), &prefix)
}

/// Whether two paths have the same components.
pub fn is_same(a: &str, b: &str) -> (r: bool)
    ensures
        r == same_path(a@, b@),
{
    let x = components(a);
    let y = components(b);
    let r = is_absolute(a) == is_absolute(b) && x.len() == y.len() && starts_with_list(&x, &y);
    proof {
        if r {
            assert(x.deep_view() =~= y.deep_view());
        }
        if x.deep_view() == y.deep_view() {
            assert(y.deep_view().is_prefix_of(x.deep_view()));
        }
    }
    r
}

/// Writes a path with its components alone.
pub fn normal(path: &str) -> (r: String)
    ensures
        r@ == normal_path(path@),
{
    let names = text::join(&components(path), "/");
    if is_absolute(path) {
        "/".to_string().concat(names.as_str())
    } else {
        names
    }
}

/// The components of a path, the root among them, without the first; nothing
/// where none is left.
pub open spec fn below_top(path: Seq<char>) -> Option<Seq<char>> {
    let all = if absolute(path) {
        seq!["/"@] + components_of(path)
    } else {
        components_of(path)
    };
    if all.len() <= 1 {
        None
    } else {
        Some(text::joined(all.drop_first(), "/"@))
    }
}

/// Strips the top-level directory from a path.
pub fn strip_top_dir(path: &str) -> (r: Option<String>)
    ensures
        r.deep_view() == below_top(path@),
{
    let parts = components(path);
    if is_absolute(path) {
        if parts.len() == 0 {
            return None;
        }
        assert((seq!["/"@] + components_of(path@)).drop_first() =~= parts.deep_view());
        return Some(text::join(&parts, "/"));
    }
    if parts.len() <= 1 {
        return None;
    }
    let mut rest: Vec<String> = Vec::new();
    let mut i: usize = 1;
    while i < parts.len()
        invariant
            1 <= i <= parts@.len(),
            rest@.len() == i - 1,
            forall|k: int| 0 <= k < i - 1 ==> (#[trigger] rest@[k])@ == parts@[k + 1]@,
        decreases parts@.len() - i,
    {
        rest.push(parts[i].clone());
        i = i + 1;
    }
    assert(rest.deep_view() =~= parts.deep_view().drop_first());
    Some(text::join(&rest, "/"))
}

/// Stripping the top-level directory leaves the components behind it, relative to
/// it: of an absolute path all that it has, and of another those but the first.
/// Nothing is left where there are none.
pub proof fn law_stripping_keeps_the_rest(path: Seq<char>)
    ensures
        below_top(path) is Some <==> components_of(path).len() > if absolute(path) {
            0int
        } else {
            1
        },
        below_top(path) matches Some(rest) ==> !absolute(rest) && components_of(rest) == if absolute(
            path,
        ) {
            components_of(path)
        } else {
            components_of(path).drop_first()
        },
{
    let names = components_of(path);
    lemma_components_are(path);
    if let Some(rest) = below_top(path) {
        let left = if absolute(path) {
            names
        } else {
            names.drop_first()
        };
        if absolute(path) {
            assert((seq!["/"@] + names).drop_first() =~= left);
        }
        let skipped = names.len() - left.len();
        assert forall|i: int| 0 <= i < left.len() implies #[trigger] left[i] == names[
            i + skipped
        ] by {}
        assert forall|i: int, k: int|
            0 <= i < left.len() && 0 <= k < left[i].len() implies #[trigger] left[i][k] != '/' by {
            assert(names[i + skipped][k] != '/');
        }
        assert(are_components(left, false));
        lemma_joined_components(left, false);
        assert(left[0][0] != '/');
    }
}

} // verus!
