//! Path resolution: joining a path to the working directory and
//! normalizing it component by component.

use crate::text::to_chars;
use vstd::prelude::*;

verus! {

/// The component `.`.
pub open spec fn is_dot(comp: Seq<char>) -> bool {
    comp.len() == 1 && comp[0] == '.'
}

/// The component `..`.
pub open spec fn is_dot_dot(comp: Seq<char>) -> bool {
    comp.len() == 2 && comp[0] == '.' && comp[1] == '.'
}

/// The pieces of `p` between its `/` characters; a path without `/` is
/// one piece, and neighbouring slashes enclose an empty piece.
pub open spec fn split(p: Seq<char>) -> Seq<Seq<char>>
    decreases p.len(),
{
    if p.len() == 0 {
        seq![Seq::empty()]
    } else {
        let init = split(p.drop_last());
        if p.last() == '/' {
            init.push(Seq::empty())
        } else {
            init.drop_last().push(init.last().push(p.last()))
        }
    }
}

/// The kept components after one more piece: empty pieces and `.` change
/// nothing, `..` drops the last kept component (none at the root), any
/// other piece is kept.
pub open spec fn step(kept: Seq<Seq<char>>, comp: Seq<char>) -> Seq<Seq<char>> {
    if comp.len() == 0 || is_dot(comp) {
        kept
    } else if is_dot_dot(comp) {
        if kept.len() > 0 {
            kept.drop_last()
        } else {
            kept
        }
    } else {
        kept.push(comp)
    }
}

/// The components that remain after processing `pieces` in order.
pub open spec fn walk(pieces: Seq<Seq<char>>) -> Seq<Seq<char>>
    decreases pieces.len(),
{
    if pieces.len() == 0 {
        Seq::empty()
    } else {
        step(walk(pieces.drop_last()), pieces.last())
    }
}

/// `comps` separated by `/`.
pub open spec fn join(comps: Seq<Seq<char>>) -> Seq<char>
    decreases comps.len(),
{
    if comps.len() == 0 {
        Seq::empty()
    } else if comps.len() == 1 {
        comps[0]
    } else {
        join(comps.drop_last()).push('/') + comps.last()
    }
}

/// The absolute path with the components `comps`; `/` when there are
/// none.
pub open spec fn render(comps: Seq<Seq<char>>) -> Seq<char> {
    seq!['/'] + join(comps)
}

/// The normal form of `p`: absolute, without empty, `.` or `..`
/// components.
pub open spec fn normalize(p: Seq<char>) -> Seq<char> {
    render(walk(split(p)))
}

/// `p` is its own normal form.
pub open spec fn is_normalized(p: Seq<char>) -> bool {
    normalize(p) == p
}

/// `s` without its trailing `/` characters.
pub open spec fn trim_slashes(s: Seq<char>) -> Seq<char>
    decreases s.len(),
{
    if s.len() > 0 && s.last() == '/' {
        trim_slashes(s.drop_last())
    } else {
        s
    }
}

/// `child` below `base`, with one `/` between them.
pub open spec fn join_to(base: Seq<char>, child: Seq<char>) -> Seq<char> {
    trim_slashes(base).push('/') + child
}

/// `path` as seen from `cwd`: a path that starts with `/` stands for
/// itself, any other is joined to `cwd`; the result is normalized.
pub open spec fn resolve(cwd: Seq<char>, path: Seq<char>) -> Seq<char> {
    if path.len() > 0 && path[0] == '/' {
        normalize(path)
    } else {
        normalize(join_to(cwd, path))
    }
}

/// A component as `normalize` keeps them: nonempty, neither `.` nor
/// `..`, without `/`.
pub open spec fn is_name(comp: Seq<char>) -> bool {
    &&& comp.len() > 0
    &&& !is_dot(comp)
    &&& !is_dot_dot(comp)
    &&& forall|i: int| 0 <= i < comp.len() ==> comp[i] != '/'
}

/// All of `comps` are names.
pub open spec fn all_names(comps: Seq<Seq<char>>) -> bool {
    forall|k: int| 0 <= k < comps.len() ==> is_name(#[trigger] comps[k])
}

proof fn lemma_split_shape(p: Seq<char>)
    ensures
        split(p).len() >= 1,
        forall|k: int, i: int|
            0 <= k < split(p).len() && 0 <= i < split(p)[k].len() ==> #[trigger] split(p)[k][i]
                != '/',
    decreases p.len(),
{
    if p.len() > 0 {
        lemma_split_shape(p.drop_last());
    }
}

proof fn lemma_walk_names(pieces: Seq<Seq<char>>)
    requires
        forall|k: int, i: int|
            0 <= k < pieces.len() && 0 <= i < pieces[k].len() ==> #[trigger] pieces[k][i] != '/',
    ensures
        all_names(walk(pieces)),
    decreases pieces.len(),
{
    if pieces.len() > 0 {
        let init = pieces.drop_last();
        assert forall|k: int, i: int| 0 <= k < init.len() && 0 <= i < init[k].len() implies
            #[trigger] init[k][i] != '/' by {
            assert(init[k] == pieces[k]);
        }
        lemma_walk_names(init);
        let last = pieces.last();
        assert forall|i: int| 0 <= i < last.len() implies last[i] != '/' by {
            assert(pieces[pieces.len() - 1][i] != '/');
        }
    }
}

proof fn lemma_split_append_name(a: Seq<char>, w: Seq<char>)
    requires
        forall|i: int| 0 <= i < w.len() ==> w[i] != '/',
    ensures
        split(a + w) == split(a).drop_last().push(split(a).last() + w),
    decreases w.len(),
{
    lemma_split_shape(a);
    if w.len() == 0 {
        assert(a + w =~= a);
        assert(split(a).last() + w =~= split(a).last());
        assert(split(a).drop_last().push(split(a).last()) =~= split(a));
    } else {
        let head = w.drop_last();
        lemma_split_append_name(a, head);
        assert((a + w).drop_last() =~= a + head);
        assert((a + w).last() == w.last());
        let init = split(a + head);
        assert(init.drop_last() =~= split(a).drop_last());
        assert(init.last().push(w.last()) =~= split(a).last() + w);
    }
}

proof fn lemma_split_render(comps: Seq<Seq<char>>)
    requires
        all_names(comps),
    ensures
        split(render(comps)) == if comps.len() == 0 {
            seq![Seq::<char>::empty(), Seq::<char>::empty()]
        } else {
            seq![Seq::<char>::empty()] + comps
        },
    decreases comps.len(),
{
    let slash = seq!['/'];
    assert(slash.drop_last() =~= Seq::<char>::empty());
    assert(split(slash.drop_last()) =~= seq![Seq::<char>::empty()]);
    assert(split(slash) =~= seq![Seq::<char>::empty(), Seq::<char>::empty()]);
    if comps.len() == 0 {
        assert(render(comps) =~= slash);
    } else if comps.len() == 1 {
        let w = comps[0];
        assert(is_name(comps[0]));
        lemma_split_append_name(slash, w);
        assert(Seq::<char>::empty() + w =~= w);
        assert(split(slash).drop_last().push(w) =~= seq![Seq::<char>::empty()] + comps);
    } else {
        let init = comps.drop_last();
        let w = comps.last();
        assert(is_name(comps[comps.len() - 1]));
        assert(all_names(init)) by {
            assert forall|k: int| 0 <= k < init.len() implies is_name(#[trigger] init[k]) by {
                assert(init[k] == comps[k]);
            }
        }
        lemma_split_render(init);
        let before = render(init).push('/');
        assert(render(comps) =~= before + w);
        assert(before.drop_last() =~= render(init));
        assert(split(before) == split(render(init)).push(Seq::empty()));
        lemma_split_append_name(before, w);
        assert(Seq::<char>::empty() + w =~= w);
        assert(split(before).drop_last().push(w) =~= seq![Seq::<char>::empty()] + comps);
    }
}

proof fn lemma_walk_names_back(comps: Seq<Seq<char>>)
    requires
        all_names(comps),
    ensures
        walk(seq![Seq::<char>::empty()] + comps) == comps,
    decreases comps.len(),
{
    let lead = seq![Seq::<char>::empty()];
    if comps.len() == 0 {
        assert(lead + comps =~= lead);
        assert(lead.drop_last() =~= Seq::<Seq<char>>::empty());
        reveal_with_fuel(walk, 2);
        assert(walk(lead) =~= comps);
    } else {
        let init = comps.drop_last();
        assert(all_names(init)) by {
            assert forall|k: int| 0 <= k < init.len() implies is_name(#[trigger] init[k]) by {
                assert(init[k] == comps[k]);
            }
        }
        lemma_walk_names_back(init);
        assert((lead + comps).drop_last() =~= lead + init);
        assert((lead + comps).last() == comps.last());
        assert(is_name(comps[comps.len() - 1]));
        assert(init.push(comps.last()) =~= comps);
    }
}

/// Normalization is idempotent: a normalized path is its own normal form.
pub proof fn lemma_normalize_idempotent(p: Seq<char>)
    ensures
        normalize(normalize(p)) == normalize(p),
        is_normalized(normalize(p)),
{
    let comps = walk(split(p));
    lemma_split_shape(p);
    lemma_walk_names(split(p));
    lemma_split_render(comps);
    if comps.len() == 0 {
        let two = seq![Seq::<char>::empty(), Seq::<char>::empty()];
        assert(two.drop_last() =~= seq![Seq::<char>::empty()]);
        assert(two.drop_last().drop_last() =~= Seq::<Seq<char>>::empty());
        reveal_with_fuel(walk, 3);
        assert(walk(two.drop_last()) =~= Seq::<Seq<char>>::empty());
        assert(walk(two) =~= comps);
    } else {
        lemma_walk_names_back(comps);
    }
}

/// A normal form is absolute and made of names only: it starts with
/// `/` and holds no empty, `.` or `..` component.
pub proof fn lemma_normalize_shape(p: Seq<char>)
    ensures
        normalize(p) == render(walk(split(p))),
        all_names(walk(split(p))),
        normalize(p).len() > 0,
        normalize(p)[0] == '/',
{
    lemma_split_shape(p);
    lemma_walk_names(split(p));
}

/// Every resolved path is normalized.
pub proof fn lemma_resolve_normalized(cwd: Seq<char>, path: Seq<char>)
    ensures
        is_normalized(resolve(cwd, path)),
{
    if path.len() > 0 && path[0] == '/' {
        lemma_normalize_idempotent(path);
    } else {
        lemma_normalize_idempotent(join_to(cwd, path));
    }
}

/// The character sequences of a list of components.
pub open spec fn comp_views(kept: Seq<Vec<char>>) -> Seq<Seq<char>> {
    Seq::new(kept.len(), |k: int| kept[k]@)
}

/// Processes one complete piece.
fn close_piece(kept: &mut Vec<Vec<char>>, cur: Vec<char>)
    ensures
        comp_views(final(kept)@) == step(comp_views(old(kept)@), cur@),
{
    let dot = cur.len() == 1 && cur[0] == '.';
    let dot_dot = cur.len() == 2 && cur[0] == '.' && cur[1] == '.';
    if cur.len() == 0 || dot {
    } else if dot_dot {
        if kept.len() > 0 {
            kept.pop();
        }
    } else {
        kept.push(cur);
    }
    proof {
        assert(comp_views(kept@) =~= step(comp_views(old(kept)@), cur@));
    }
}

/// The normal form of `chars`, as characters.
fn normalize_chars(chars: &Vec<char>) -> (out: Vec<char>)
    ensures
        out@ == normalize(chars@),
{
    let mut kept: Vec<Vec<char>> = Vec::new();
    let mut cur: Vec<char> = Vec::new();
    let mut i: usize = 0;
    proof {
        assert(chars@.take(0) =~= Seq::<char>::empty());
        assert(split(chars@.take(0)).drop_last() =~= Seq::<Seq<char>>::empty());
        assert(comp_views(kept@) =~= walk(split(chars@.take(0)).drop_last()));
    }
    while i < chars.len()
        invariant
            i <= chars.len(),
            comp_views(kept@) == walk(split(chars@.take(i as int)).drop_last()),
            cur@ == split(chars@.take(i as int)).last(),
        decreases chars.len() - i,
    {
        let ghost pieces = split(chars@.take(i as int));
        proof {
            lemma_split_shape(chars@.take(i as int));
            assert(pieces.drop_last().push(pieces.last()) =~= pieces);
            assert(chars@.take(i + 1).drop_last() =~= chars@.take(i as int));
        }
        if chars[i] != '/' {
            cur.push(chars[i]);
            proof {
                let next = split(chars@.take(i + 1));
                assert(next.drop_last() =~= pieces.drop_last());
            }
        } else {
            close_piece(&mut kept, cur);
            cur = Vec::new();
            proof {
                let next = split(chars@.take(i + 1));
                assert(next.drop_last() =~= pieces);
            }
        }
        i += 1;
    }
    proof {
        lemma_split_shape(chars@);
        assert(chars@.take(i as int) =~= chars@);
        assert(split(chars@).drop_last().push(split(chars@).last()) =~= split(chars@));
    }
    close_piece(&mut kept, cur);
    let mut out: Vec<char> = Vec::new();
    out.push('/');
    let ghost comps = comp_views(kept@);
    let mut k: usize = 0;
    while k < kept.len()
        invariant
            k <= kept.len(),
            comps == comp_views(kept@),
            out@ == render(comps.take(k as int)),
        decreases kept.len() - k,
    {
        let ghost start = out@;
        if k > 0 {
            out.push('/');
        }
        let ghost lead = out@;
        let comp = &kept[k];
        let mut j: usize = 0;
        while j < comp.len()
            invariant
                j <= comp.len(),
                out@ == lead + comp@.take(j as int),
            decreases comp.len() - j,
        {
            out.push(comp[j]);
            proof {
                assert(comp@.take(j + 1) =~= comp@.take(j as int).push(comp@[j as int]));
            }
            j += 1;
        }
        proof {
            assert(comp@.take(comp@.len() as int) =~= comp@);
            let upto = comps.take(k + 1);
            assert(upto.drop_last() =~= comps.take(k as int));
            assert(upto.last() == comp@);
            if k == 0 {
                assert(join(comps.take(0)) =~= Seq::<char>::empty());
                assert(out@ =~= render(upto));
            } else {
                assert(out@ =~= render(upto));
            }
        }
        k += 1;
    }
    proof {
        assert(comps.take(kept@.len() as int) =~= comps);
    }
    out
}

/// `chars` without its trailing `/` characters: how many remain.
fn trimmed_len(chars: &Vec<char>) -> (n: usize)
    ensures
        n <= chars.len(),
        chars@.take(n as int) == trim_slashes(chars@),
{
    let mut n: usize = chars.len();
    proof {
        assert(chars@.take(n as int) =~= chars@);
    }
    while n > 0 && chars[n - 1] == '/'
        invariant
            n <= chars.len(),
            trim_slashes(chars@.take(n as int)) == trim_slashes(chars@),
        decreases n,
    {
        proof {
            assert(chars@.take(n as int).drop_last() =~= chars@.take(n - 1));
        }
        n -= 1;
    }
    n
}

/// `child` below `base`, as characters.
fn join_chars(base: &Vec<char>, child: &Vec<char>) -> (out: Vec<char>)
    ensures
        out@ == join_to(base@, child@),
{
    let n = trimmed_len(base);
    let mut out: Vec<char> = Vec::new();
    let mut i: usize = 0;
    while i < n
        invariant
            i <= n <= base.len(),
            out@ == base@.take(i as int),
        decreases n - i,
    {
        out.push(base[i]);
        proof {
            assert(base@.take(i + 1) =~= base@.take(i as int).push(base@[i as int]));
        }
        i += 1;
    }
    out.push('/');
    let ghost lead = out@;
    let mut j: usize = 0;
    while j < child.len()
        invariant
            j <= child.len(),
            out@ == lead + child@.take(j as int),
        decreases child.len() - j,
    {
        out.push(child[j]);
        proof {
            assert(child@.take(j + 1) =~= child@.take(j as int).push(child@[j as int]));
        }
        j += 1;
    }
    proof {
        assert(child@.take(child@.len() as int) =~= child@);
    }
    out
}

/// The string spelled by `chars`.
fn spell(chars: &Vec<char>) -> (out: String)
    ensures
        out@ == chars@,
{
    let out = crate::text::from_chars(chars, 0, chars.len());
    proof {
        assert(chars@.subrange(0, chars@.len() as int) =~= chars@);
    }
    out
}

/// Normalizes a path: empty and `.` components are dropped, `..` removes
/// the component before it (and is dropped at the root), and the result
/// is absolute; `/` if nothing remains.
pub fn normalize_path(path: &str) -> (out: String)
    ensures
        out@ == normalize(path@),
        is_normalized(out@),
{
    proof {
        lemma_normalize_idempotent(path@);
    }
    let chars = to_chars(path);
    spell(&normalize_chars(&chars))
}

/// Resolves `path` against the working directory `cwd`.
pub fn resolve_path(cwd: &str, path: &str) -> (out: String)
    ensures
        out@ == resolve(cwd@, path@),
        is_normalized(out@),
{
    proof {
        lemma_resolve_normalized(cwd@, path@);
    }
    let chars = to_chars(path);
    if chars.len() > 0 && chars[0] == '/' {
        spell(&normalize_chars(&chars))
    } else {
        let base = to_chars(cwd);
        let full = join_chars(&base, &chars);
        spell(&normalize_chars(&full))
    }
}

/// Joins `child` to `base` with exactly one `/` between them; the result
/// is not normalized.
pub fn join_path(base: &str, child: &str) -> (out: String)
    ensures
        out@ == join_to(base@, child@),
{
    let b = to_chars(base);
    let c = to_chars(child);
    spell(&join_chars(&b, &c))
}

} // verus!
