//! Lexical path normalization: collapses `.`, `..` and repeated separators.

use vstd::prelude::*;

verus! {

/// The components of `t` from position `i` on, where the component being read
/// started at `start`: the pieces between separators, empty ones included.
pub open spec fn split_from(t: Seq<char>, i: int, start: int) -> Seq<Seq<char>>
    decreases t.len() - i,
{
    if i >= t.len() {
        seq![t.subrange(start, t.len() as int)]
    } else if t[i] == '/' {
        seq![t.subrange(start, i)] + split_from(t, i + 1, i + 1)
    } else {
        split_from(t, i + 1, start)
    }
}

/// The pieces of `t` between `/` separators, in order.
pub open spec fn components(t: Seq<char>) -> Seq<Seq<char>> {
    split_from(t, 0, 0)
}

pub open spec fn dot_dot() -> Seq<char> {
    seq!['.', '.']
}

/// The effect of one component on the stack of kept components: empty and `.`
/// vanish, `..` cancels the previous kept name; a `..` that cannot cancel
/// anything is kept in a relative path and dropped at the root of an absolute one.
pub open spec fn push_component(stack: Seq<Seq<char>>, c: Seq<char>, absolute: bool) -> Seq<Seq<char>> {
    if c.len() == 0 || c == seq!['.'] {
        stack
    } else if c != dot_dot() {
        stack.push(c)
    } else if stack.len() > 0 && stack.last() != dot_dot() {
        stack.drop_last()
    } else if !absolute {
        stack.push(c)
    } else {
        stack
    }
}

pub open spec fn resolve_components(comps: Seq<Seq<char>>, absolute: bool) -> Seq<Seq<char>>
    decreases comps.len(),
{
    if comps.len() == 0 {
        seq![]
    } else {
        push_component(resolve_components(comps.drop_last(), absolute), comps.last(), absolute)
    }
}

/// The parts joined with single `/` separators.
pub open spec fn join_components(parts: Seq<Seq<char>>) -> Seq<char>
    decreases parts.len(),
{
    if parts.len() == 0 {
        seq![]
    } else if parts.len() == 1 {
        parts[0]
    } else {
        join_components(parts.drop_last()) + seq!['/'] + parts.last()
    }
}

pub open spec fn is_absolute(p: Seq<char>) -> bool {
    p.len() > 0 && p[0] == '/'
}

/// Exactly two leading slashes are kept (POSIX leaves their meaning to the
/// system); one, or three and more, become a single slash.
pub open spec fn root_prefix(p: Seq<char>) -> Seq<char> {
    if p.len() >= 2 && p[0] == '/' && p[1] == '/' && !(p.len() >= 3 && p[2] == '/') {
        seq!['/', '/']
    } else if is_absolute(p) {
        seq!['/']
    } else {
        seq![]
    }
}

/// The normal form of a path: its root, then its resolved components; `.` when
/// that would be empty.
pub open spec fn normalized(p: Seq<char>) -> Seq<char> {
    let r = root_prefix(p) + join_components(resolve_components(components(p), is_absolute(p)));
    if r.len() == 0 {
        seq!['.']
    } else {
        r
    }
}

pub open spec fn slash_free(c: Seq<char>) -> bool {
    forall|j: int| 0 <= j < c.len() ==> c[j] != '/'
}

/// The shape of a resolved stack: names that are neither empty nor `.` and
/// hold no separator, with `..` only at the front of a relative path.
pub open spec fn resolved_shape(st: Seq<Seq<char>>, absolute: bool) -> bool {
    forall|i: int|
        0 <= i < st.len() ==> {
            &&& (#[trigger] st[i]).len() > 0
            &&& st[i] != seq!['.']
            &&& slash_free(st[i])
            &&& (st[i] == dot_dot() ==> !absolute && forall|j: int| 0 <= j < i ==> st[j] == dot_dot())
        }
}

proof fn lemma_split_skips_names(t: Seq<char>, i: int, k: int, start: int)
    requires
        0 <= i <= k <= t.len(),
        forall|j: int| i <= j < k ==> t[j] != '/',
    ensures
        split_from(t, i, start) == split_from(t, k, start),
    decreases k - i,
{
    if i < k {
        assert(t[i] != '/');
        assert(split_from(t, i, start) == split_from(t, i + 1, start));
        lemma_split_skips_names(t, i + 1, k, start);
    }
}

proof fn lemma_split_slash_free(t: Seq<char>, i: int, start: int)
    requires
        0 <= start <= i <= t.len(),
        forall|j: int| start <= j < i ==> t[j] != '/',
    ensures
        forall|m: int| 0 <= m < split_from(t, i, start).len() ==> slash_free(#[trigger] split_from(t, i, start)[m]),
    decreases t.len() - i,
{
    if i < t.len() {
        if t[i] == '/' {
            lemma_split_slash_free(t, i + 1, i + 1);
            let rest = split_from(t, i + 1, i + 1);
            assert forall|m: int| 0 <= m < split_from(t, i, start).len() implies slash_free(
                #[trigger] split_from(t, i, start)[m],
            ) by {
                if m > 0 {
                    assert(split_from(t, i, start)[m] == rest[m - 1]);
                }
            }
        } else {
            lemma_split_slash_free(t, i + 1, start);
            assert(split_from(t, i, start) == split_from(t, i + 1, start));
        }
    } else {
        let c = t.subrange(start, t.len() as int);
        assert forall|j: int| 0 <= j < c.len() implies c[j] != '/' by {
            assert(c[j] == t[start + j]);
        }
        assert(split_from(t, i, start) == seq![c]);
    }
}

proof fn lemma_join_front(a: Seq<char>, rest: Seq<Seq<char>>)
    requires
        rest.len() >= 1,
    ensures
        join_components(seq![a] + rest) == a + seq!['/'] + join_components(rest),
    decreases rest.len(),
{
    let s = seq![a] + rest;
    assert(s.drop_last() =~= seq![a] + rest.drop_last());
    assert(s.last() == rest.last());
    assert(join_components(s) == join_components(s.drop_last()) + seq!['/'] + s.last());
    if rest.len() == 1 {
        assert(seq![a] + rest.drop_last() =~= seq![a]);
        assert(join_components(seq![a]) == a);
        assert(join_components(rest) == rest[0]);
    } else {
        lemma_join_front(a, rest.drop_last());
        let x = join_components(rest.drop_last());
        assert(join_components(rest) == x + seq!['/'] + rest.last());
        assert((a + seq!['/'] + x) + seq!['/'] + rest.last() =~= a + seq!['/'] + (x + seq!['/'] + rest.last()));
    }
}

proof fn lemma_split_of_join(t: Seq<char>, i: int, parts: Seq<Seq<char>>)
    requires
        0 <= i <= t.len(),
        parts.len() >= 1,
        t.subrange(i, t.len() as int) == join_components(parts),
        forall|m: int| 0 <= m < parts.len() ==> slash_free(#[trigger] parts[m]),
    ensures
        split_from(t, i, i) == parts,
    decreases parts.len(),
{
    let a = parts[0];
    if parts.len() == 1 {
        assert(t.subrange(i, t.len() as int) == a);
        assert forall|j: int| i <= j < t.len() implies t[j] != '/' by {
            assert(t[j] == a[j - i]);
        }
        lemma_split_skips_names(t, i, t.len() as int, i);
        assert(split_from(t, i, i) =~= parts);
    } else {
        let rest = parts.subrange(1, parts.len() as int);
        assert(parts =~= seq![a] + rest);
        lemma_join_front(a, rest);
        assert(join_components(parts) == a + seq!['/'] + join_components(rest));
        assert(slash_free(parts[0]));
        let k = i + a.len();
        assert(k < t.len());
        assert forall|j: int| i <= j < k implies t[j] != '/' by {
            assert(t.subrange(i, t.len() as int)[j - i] == t[j]);
            assert((a + seq!['/'] + join_components(rest))[j - i] == a[j - i]);
        }
        assert(t.subrange(i, t.len() as int)[a.len() as int] == t[k]);
        assert((a + seq!['/'] + join_components(rest))[a.len() as int] == '/');
        lemma_split_skips_names(t, i, k, i);
        assert(t.subrange(k + 1, t.len() as int) =~= join_components(rest)) by {
            assert forall|j: int| 0 <= j < t.len() - (k + 1) implies t.subrange(k + 1, t.len() as int)[j]
                == join_components(rest)[j] by {
                assert(t.subrange(i, t.len() as int)[a.len() + 1 + j] == t[k + 1 + j]);
                assert((a + seq!['/'] + join_components(rest))[a.len() + 1 + j] == join_components(rest)[j]);
            }
        }
        assert forall|m: int| 0 <= m < rest.len() implies slash_free(#[trigger] rest[m]) by {
            assert(rest[m] == parts[m + 1]);
        }
        lemma_split_of_join(t, k + 1, rest);
        assert(t.subrange(i, k) =~= a) by {
            assert forall|j: int| 0 <= j < a.len() implies t.subrange(i, k)[j] == a[j] by {
                assert(t.subrange(i, t.len() as int)[j] == t[i + j]);
                assert((a + seq!['/'] + join_components(rest))[j] == a[j]);
            }
        }
        assert(split_from(t, i, i) =~= seq![a] + rest);
    }
}

proof fn lemma_resolve_shape(comps: Seq<Seq<char>>, absolute: bool)
    requires
        forall|m: int| 0 <= m < comps.len() ==> slash_free(#[trigger] comps[m]),
    ensures
        resolved_shape(resolve_components(comps, absolute), absolute),
    decreases comps.len(),
{
    if comps.len() > 0 {
        let pre = comps.drop_last();
        assert forall|m: int| 0 <= m < pre.len() implies slash_free(#[trigger] pre[m]) by {
            assert(pre[m] == comps[m]);
        }
        lemma_resolve_shape(pre, absolute);
        let st = resolve_components(pre, absolute);
        let c = comps.last();
        assert(slash_free(comps[comps.len() - 1]));
        let next = push_component(st, c, absolute);
        assert forall|i: int| 0 <= i < next.len() implies {
            &&& (#[trigger] next[i]).len() > 0
            &&& next[i] != seq!['.']
            &&& slash_free(next[i])
            &&& (next[i] == dot_dot() ==> !absolute && forall|j: int| 0 <= j < i ==> next[j] == dot_dot())
        } by {
            if i < st.len() {
                assert(next[i] == st[i]);
                if next[i] == dot_dot() {
                    assert forall|j: int| 0 <= j < i implies next[j] == dot_dot() by {
                        assert(next[j] == st[j]);
                    }
                }
            } else {
                assert(next[i] == c);
                if c == dot_dot() {
                    assert forall|j: int| 0 <= j < i implies next[j] == dot_dot() by {
                        assert(next[j] == st[j]);
                        assert(st[st.len() - 1] == dot_dot());
                    }
                }
            }
        }
    }
}

proof fn lemma_resolve_keeps_shape(st: Seq<Seq<char>>, absolute: bool)
    requires
        resolved_shape(st, absolute),
    ensures
        resolve_components(st, absolute) == st,
    decreases st.len(),
{
    if st.len() > 0 {
        let pre = st.drop_last();
        assert forall|i: int| 0 <= i < pre.len() implies {
            &&& (#[trigger] pre[i]).len() > 0
            &&& pre[i] != seq!['.']
            &&& slash_free(pre[i])
            &&& (pre[i] == dot_dot() ==> !absolute && forall|j: int| 0 <= j < i ==> pre[j] == dot_dot())
        } by {
            assert(pre[i] == st[i]);
            if pre[i] == dot_dot() {
                assert forall|j: int| 0 <= j < i implies pre[j] == dot_dot() by {
                    assert(pre[j] == st[j]);
                }
            }
        }
        lemma_resolve_keeps_shape(pre, absolute);
        let c = st.last();
        assert(st[st.len() - 1] == c);
        if c == dot_dot() && pre.len() > 0 {
            assert(st[pre.len() - 1] == dot_dot());
        }
        assert(pre.push(c) =~= st);
    }
}

proof fn lemma_resolve_skips_empty_front(e: Seq<Seq<char>>, st: Seq<Seq<char>>, absolute: bool)
    requires
        forall|m: int| 0 <= m < e.len() ==> (#[trigger] e[m]).len() == 0,
    ensures
        resolve_components(e + st, absolute) == resolve_components(st, absolute),
    decreases st.len() + e.len(),
{
    if st.len() > 0 {
        assert((e + st).drop_last() =~= e + st.drop_last());
        lemma_resolve_skips_empty_front(e, st.drop_last(), absolute);
    } else if e.len() > 0 {
        assert((e + st).drop_last() =~= e.drop_last() + st);
        assert forall|m: int| 0 <= m < e.drop_last().len() implies (#[trigger] e.drop_last()[m]).len() == 0 by {
            assert(e.drop_last()[m] == e[m]);
        }
        lemma_resolve_skips_empty_front(e.drop_last(), st, absolute);
        assert(e[e.len() - 1].len() == 0);
    } else {
        assert(e + st =~= st);
    }
}

proof fn lemma_join_first_char(st: Seq<Seq<char>>)
    requires
        st.len() > 0,
        st[0].len() > 0,
    ensures
        join_components(st).len() > 0,
        join_components(st)[0] == st[0][0],
{
    if st.len() > 1 {
        let rest = st.subrange(1, st.len() as int);
        assert(st =~= seq![st[0]] + rest);
        lemma_join_front(st[0], rest);
    }
}

/// Normalizing a normalized path changes nothing: entering the directory that
/// was committed again commits the same path.
pub proof fn law_normalize_idempotent(p: Seq<char>)
    ensures
        normalized(normalized(p)) == normalized(p),
{
    let abs = is_absolute(p);
    let pre = root_prefix(p);
    lemma_split_slash_free(p, 0, 0);
    lemma_resolve_shape(components(p), abs);
    let st = resolve_components(components(p), abs);
    let j = join_components(st);
    let q = normalized(p);
    if st.len() > 0 {
        lemma_join_first_char(st);
        assert(st[0].len() > 0 && st[0][0] != '/');
    }
    if pre.len() + j.len() == 0 {
        assert(q == seq!['.']);
        assert(split_from(q, 0, 0) == split_from(q, 1, 0));
        assert(q.subrange(0, 1) =~= seq!['.']);
        assert(components(q) == seq![seq!['.']]);
        assert(seq![seq!['.']].drop_last() =~= Seq::<Seq<char>>::empty());
        assert(resolve_components(Seq::<Seq<char>>::empty(), false) == Seq::<Seq<char>>::empty());
        assert(seq![seq!['.']].last() == seq!['.']);
        assert(resolve_components(components(q), false) =~= Seq::<Seq<char>>::empty());
        assert(root_prefix(q) =~= Seq::<char>::empty());
        assert(join_components(Seq::<Seq<char>>::empty()) =~= Seq::<char>::empty());
    } else {
        assert(q == pre + j);
        assert(is_absolute(q) == abs);
        assert(root_prefix(q) == pre);
        let e = Seq::new(pre.len(), |m: int| Seq::<char>::empty());
        if pre.len() >= 1 {
            assert(q[0] == '/');
            assert(split_from(q, 0, 0) == seq![q.subrange(0, 0)] + split_from(q, 1, 1));
            assert(q.subrange(0, 0) =~= Seq::<char>::empty());
        }
        if pre.len() == 2 {
            assert(q[1] == '/');
            assert(split_from(q, 1, 1) == seq![q.subrange(1, 1)] + split_from(q, 2, 2));
            assert(q.subrange(1, 1) =~= Seq::<char>::empty());
        }
        let tail = split_from(q, pre.len() as int, pre.len() as int);
        assert(components(q) =~= e + tail);
        if st.len() > 0 {
            assert forall|m: int| 0 <= m < st.len() implies slash_free(#[trigger] st[m]) by {}
            assert(q.subrange(pre.len() as int, q.len() as int) =~= j);
            lemma_split_of_join(q, pre.len() as int, st);
            lemma_resolve_skips_empty_front(e, st, abs);
            lemma_resolve_keeps_shape(st, abs);
        } else {
            assert(q.len() == pre.len());
            assert(tail == seq![q.subrange(pre.len() as int, pre.len() as int)]);
            assert(q.subrange(pre.len() as int, pre.len() as int) =~= Seq::<char>::empty());
            let e1 = Seq::new(pre.len() + 1, |m: int| Seq::<char>::empty());
            assert(components(q) =~= e1);
            lemma_resolve_skips_empty_front(e1, seq![], abs);
            assert(e1 + Seq::<Seq<char>>::empty() =~= e1);
        }
    }
}

pub open spec fn views(v: Seq<String>) -> Seq<Seq<char>> {
    v.map_values(|s: String| s@)
}

fn is_dot(c: &str) -> (r: bool)
    ensures
        r == (c@ == seq!['.']),
{
    if c.unicode_len() == 1 && c.get_char(0) == '.' {
        assert(c@ =~= seq!['.']);
        true
    } else {
        false
    }
}

fn is_dot_dot(c: &str) -> (r: bool)
    ensures
        r == (c@ == dot_dot()),
{
    if c.unicode_len() == 2 && c.get_char(0) == '.' && c.get_char(1) == '.' {
        assert(c@ =~= dot_dot());
        true
    } else {
        false
    }
}

fn push_component_exec(stack: &mut Vec<String>, c: &str, absolute: bool)
    ensures
        views(final(stack)@) == push_component(views(old(stack)@), c@, absolute),
{
    let ghost before = views(stack@);
    if c.unicode_len() == 0 || is_dot(c) {
    } else if !is_dot_dot(c) {
        stack.push(String::from_str(c));
        assert(views(stack@) =~= before.push(c@));
    } else if stack.len() > 0 && !is_dot_dot(stack[stack.len() - 1].as_str()) {
        stack.pop();
        assert(views(stack@) =~= before.drop_last());
    } else if !absolute {
        stack.push(String::from_str(c));
        assert(views(stack@) =~= before.push(c@));
    }
}

/// Lexically normalizes `path`: `.` and empty components are dropped, `..`
/// removes the component before it, and a leading `//` is kept as it is.
#[verifier::rlimit(40)]
pub fn normalize_path(path: &str) -> (r: String)
    ensures
        r@ == normalized(path@),
{
    let n = path.unicode_len();
    let absolute = n > 0 && path.get_char(0) == '/';
    let mut stack: Vec<String> = Vec::new();
    let ghost mut done: Seq<Seq<char>> = seq![];
    let mut start: usize = 0;
    let mut i: usize = 0;
    while i < n
        invariant
            n == path@.len(),
            absolute == is_absolute(path@),
            start <= i <= n,
            components(path@) == done + split_from(path@, i as int, start as int),
            views(stack@) == resolve_components(done, absolute),
        decreases n - i,
    {
        if path.get_char(i) == '/' {
            let c = path.substring_char(start, i);
            proof {
                assert(done.push(c@).drop_last() =~= done);
                assert(done + split_from(path@, i as int, start as int) =~= done.push(c@) + split_from(path@, i + 1, i + 1));
                done = done.push(c@);
            }
            push_component_exec(&mut stack, c, absolute);
            start = i + 1;
        }
        i = i + 1;
    }
    let c = path.substring_char(start, n);
    proof {
        assert(done.push(c@).drop_last() =~= done);
        assert(done + split_from(path@, i as int, start as int) =~= done.push(c@));
        done = done.push(c@);
    }
    push_component_exec(&mut stack, c, absolute);
    let ghost parts = views(stack@);

    let mut r = String::new();
    if absolute {
        r.append("/");
        if n >= 2 && path.get_char(1) == '/' && !(n >= 3 && path.get_char(2) == '/') {
            r.append("/");
        }
    }
    proof {
        reveal_strlit("/");
        assert(r@ =~= root_prefix(path@));
    }
    let ghost prefix = r@;
    let mut j: usize = 0;
    while j < stack.len()
        invariant
            parts == views(stack@),
            j <= stack@.len(),
            r@ == prefix + join_components(parts.take(j as int)),
        decreases stack@.len() - j,
    {
        proof {
            reveal_strlit("/");
            assert(parts.take(j + 1).drop_last() =~= parts.take(j as int));
        }
        if j > 0 {
            r.append("/");
        }
        r.append(stack[j].as_str());
        proof {
            if j == 0 {
                assert(join_components(parts.take(1)) == parts[0]);
            }
            assert(r@ =~= prefix + join_components(parts.take(j + 1)));
        }
        j = j + 1;
    }
    assert(parts.take(stack@.len() as int) =~= parts);
    if r.unicode_len() == 0 {
        r.append(".");
        proof {
            reveal_strlit(".");
            assert(r@ =~= seq!['.']);
        }
    }
    r
}

} // verus!
