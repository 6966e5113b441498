//! Unix paths as strings: joining them, and comparing them component by
//! component, as `std::path::Path` does.

use vstd::prelude::*;

use crate::text::{chars_of, push_str, split_on, string_from_range};

verus! {

// ── specifications ──────────────────────────────────────────────────────────

/// `base` joined with `p` as `Path::join` does it: an absolute `p` replaces
/// `base`; otherwise `p` follows `base`, with a `/` between them when `base`
/// is not empty and does not already end with one.
pub open spec fn join_path(base: Seq<char>, p: Seq<char>) -> Seq<char> {
    if p.len() > 0 && p[0] == '/' {
        p
    } else if base.len() > 0 && base.last() != '/' {
        base + seq!['/'] + p
    } else {
        base + p
    }
}

/// The path starts at the root.
pub open spec fn has_root(p: Seq<char>) -> bool {
    p.len() > 0 && p[0] == '/'
}

/// The path is relative and starts with a `.` component, which `Path` keeps
/// as its first component.
pub open spec fn leads_with_cur_dir(p: Seq<char>) -> bool {
    !has_root(p) && p.len() > 0 && p[0] == '.' && (p.len() == 1 || p[1] == '/')
}

/// A piece between slashes that names a component: not empty and not `.`.
pub open spec fn is_named_part(piece: Seq<char>) -> bool {
    piece.len() > 0 && piece != seq!['.']
}

/// The named parts among `pieces`, in order.
pub open spec fn named_parts(pieces: Seq<Seq<char>>) -> Seq<Seq<char>>
    decreases pieces.len(),
{
    if pieces.len() == 0 {
        Seq::<Seq<char>>::empty()
    } else if is_named_part(pieces.last()) {
        named_parts(pieces.drop_last()).push(pieces.last())
    } else {
        named_parts(pieces.drop_last())
    }
}

/// The components of a path as `Path::components` yields them, each written
/// out: `/` for the root, `.` for a leading current directory, and the other
/// parts (`..` among them) as they stand.
pub open spec fn components(p: Seq<char>) -> Seq<Seq<char>> {
    let head = if has_root(p) {
        seq![seq!['/']]
    } else if leads_with_cur_dir(p) {
        seq![seq!['.']]
    } else {
        Seq::<Seq<char>>::empty()
    };
    head + named_parts(split_on(p, '/'))
}

/// `p` starts with `base` in the sense of `Path::starts_with`: the components
/// of `base` begin the components of `p`.
pub open spec fn path_starts_with(p: Seq<char>, base: Seq<char>) -> bool {
    components(base).is_prefix_of(components(p))
}

/// A component that names a directory entry: not the root, `.` or `..`.
pub open spec fn is_entry_name(c: Seq<char>) -> bool {
    c != seq!['/'] && c != seq!['.'] && c != seq!['.', '.']
}

/// One component more, with `..` resolved lexically: it cancels a preceding
/// entry name, stays at the root, and is kept otherwise.
pub open spec fn resolve_step(acc: Seq<Seq<char>>, c: Seq<char>) -> Seq<Seq<char>> {
    if c == seq!['.', '.'] {
        if acc.len() > 0 && is_entry_name(acc.last()) {
            acc.drop_last()
        } else if acc == seq![seq!['/']] {
            acc
        } else {
            acc.push(c)
        }
    } else {
        acc.push(c)
    }
}

/// Components with every `..` resolved lexically, from the left.
pub open spec fn resolve_dots(cs: Seq<Seq<char>>) -> Seq<Seq<char>>
    decreases cs.len(),
{
    if cs.len() == 0 {
        Seq::<Seq<char>>::empty()
    } else {
        resolve_step(resolve_dots(cs.drop_last()), cs.last())
    }
}

/// `p` lies under `base` once `..` is resolved in both: the resolved
/// components of `base` begin those of `p`, and none of the components of
/// `p` after them is a `..` that still climbs (which a relative base can
/// leave unresolved).
pub open spec fn stays_under(p: Seq<char>, base: Seq<char>) -> bool {
    let b = resolve_dots(components(base));
    let q = resolve_dots(components(p));
    &&& b.is_prefix_of(q)
    &&& forall|k: int| b.len() <= k < q.len() ==> q[k] != seq!['.', '.']
}

// ── lemmas ──────────────────────────────────────────────────────────────────

/// Splitting a text that ends with the separator, followed by more text:
/// the pieces of the first part, then those of the second.
proof fn lemma_split_after_separator(x: Seq<char>, y: Seq<char>, sep: char)
    requires
        x.len() > 0,
        x.last() == sep,
    ensures
        split_on(x + y, sep) == split_on(x, sep).drop_last() + split_on(y, sep),
    decreases y.len(),
{
    crate::text::lemma_split_len(x, sep);
    if y.len() == 0 {
        assert(x + y =~= x);
        assert(x.drop_last().push(x.last()) =~= x);
        assert(split_on(x, sep) == split_on(x.drop_last(), sep).push(Seq::<char>::empty()));
        assert(split_on(x, sep).drop_last() + split_on(y, sep) =~= split_on(x, sep));
    } else {
        lemma_split_after_separator(x, y.drop_last(), sep);
        crate::text::lemma_split_len(y.drop_last(), sep);
        assert((x + y).drop_last() =~= x + y.drop_last());
        assert((x + y).last() == y.last());
        let a = split_on(x, sep).drop_last();
        let b = split_on(y.drop_last(), sep);
        if y.last() == sep {
            assert((a + b).push(Seq::<char>::empty()) =~= a + b.push(Seq::<char>::empty()));
        } else {
            assert((a + b).update((a + b).len() - 1, (a + b).last().push(y.last())) =~= a
                + b.update(b.len() - 1, b.last().push(y.last())));
        }
    }
}

/// The named parts of two runs of pieces are those of the first, then those
/// of the second.
proof fn lemma_named_parts_concat(a: Seq<Seq<char>>, b: Seq<Seq<char>>)
    ensures
        named_parts(a + b) == named_parts(a) + named_parts(b),
    decreases b.len(),
{
    if b.len() == 0 {
        assert(a + b =~= a);
        assert(named_parts(a) + named_parts(b) =~= named_parts(a));
    } else {
        lemma_named_parts_concat(a, b.drop_last());
        assert((a + b).drop_last() =~= a + b.drop_last());
        assert((a + b).last() == b.last());
        if is_named_part(b.last()) {
            assert((named_parts(a) + named_parts(b.drop_last())).push(b.last()) =~= named_parts(a)
                + named_parts(b.drop_last()).push(b.last()));
        }
    }
}

/// Joining a relative path onto a base: the components of the result are the
/// base's followed by the relative path's own named parts (`..` among them,
/// unresolved), so the result starts with the base component by component.
pub proof fn lemma_relative_join_components(base: Seq<char>, file: Seq<char>)
    requires
        !has_root(file),
    ensures
        path_starts_with(join_path(base, file), base),
        base.len() > 0 ==> components(join_path(base, file)) == components(base) + named_parts(
            split_on(file, '/'),
        ),
{
    let joined = join_path(base, file);
    if base.len() == 0 {
        assert(joined =~= file);
        assert(split_on(base, '/') == seq![Seq::<char>::empty()]);
        assert(seq![Seq::<char>::empty()].drop_last() =~= Seq::<Seq<char>>::empty());
        assert(seq![Seq::<char>::empty()].last() == Seq::<char>::empty());
        assert(named_parts(seq![Seq::<char>::empty()]) == named_parts(
            Seq::<Seq<char>>::empty(),
        ));
        assert(components(base) =~= Seq::<Seq<char>>::empty());
    } else {
        let x = if base.last() == '/' {
            base
        } else {
            base + seq!['/']
        };
        assert(joined =~= x + file);
        assert(x.last() == '/');
        lemma_split_after_separator(x, file, '/');
        crate::text::lemma_split_len(base, '/');
        if base.last() != '/' {
            assert(x.drop_last() =~= base);
        }
        assert(split_on(x, '/').drop_last() =~= split_on(base, '/') || base.last() == '/');
        let pb = split_on(base, '/');
        if base.last() == '/' {
            assert(base.drop_last().push('/') =~= base);
            assert(pb.last() == Seq::<char>::empty());
            assert(named_parts(pb) == named_parts(pb.drop_last()));
            lemma_named_parts_concat(pb.drop_last(), split_on(file, '/'));
        } else {
            lemma_named_parts_concat(pb, split_on(file, '/'));
        }
        assert(has_root(joined) == has_root(base));
        assert(leads_with_cur_dir(joined) == leads_with_cur_dir(base)) by {
            assert(joined[0] == base[0]);
            if base.len() >= 2 {
                assert(joined[1] == base[1]);
            } else {
                assert(joined.len() >= 2 ==> joined[1] == '/' || base.last() == '/');
            }
        }
        assert(components(joined) =~= components(base) + named_parts(split_on(file, '/')));
    }
}


/// Resolving components followed by components without `..` resolves the
/// first ones and keeps the others as they are.
proof fn lemma_resolve_plain_suffix(a: Seq<Seq<char>>, n: Seq<Seq<char>>)
    requires
        forall|k: int| 0 <= k < n.len() ==> n[k] != seq!['.', '.'],
    ensures
        resolve_dots(a + n) == resolve_dots(a) + n,
    decreases n.len(),
{
    if n.len() == 0 {
        assert(a + n =~= a);
        assert(resolve_dots(a) + n =~= resolve_dots(a));
    } else {
        let m = n.drop_last();
        assert forall|k: int| 0 <= k < m.len() implies m[k] != seq!['.', '.'] by {
            assert(m[k] == n[k]);
        }
        lemma_resolve_plain_suffix(a, m);
        assert((a + n).drop_last() =~= a + m);
        assert((a + n).last() == n.last());
        assert(n.last() != seq!['.', '.']);
        assert((resolve_dots(a) + m).push(n.last()) =~= resolve_dots(a) + n);
    }
}

/// The path guard law: a relative path without `..` parts, joined onto any
/// base, lies under the base once `..` is resolved, so the guard keeps it;
/// only a path that resolves outside the base (an absolute one elsewhere, or
/// one whose `..` parts climb out) is refused.
pub proof fn lemma_plain_relative_path_stays_under(base: Seq<char>, file: Seq<char>)
    requires
        !has_root(file),
        forall|k: int|
            0 <= k < named_parts(split_on(file, '/')).len() ==> named_parts(split_on(file, '/'))[k]
                != seq!['.', '.'],
    ensures
        stays_under(join_path(base, file), base),
{
    let n = named_parts(split_on(file, '/'));
    if base.len() > 0 {
        lemma_relative_join_components(base, file);
        lemma_resolve_plain_suffix(components(base), n);
        let b = resolve_dots(components(base));
        assert forall|k: int| b.len() <= k < (b + n).len() implies (b + n)[k] != seq!['.', '.'] by {
            assert((b + n)[k] == n[k - b.len()]);
        }
    } else {
        let joined = join_path(base, file);
        assert(joined =~= file);
        assert(seq![Seq::<char>::empty()].drop_last() =~= Seq::<Seq<char>>::empty());
        assert(split_on(base, '/') == seq![Seq::<char>::empty()]);
        assert(seq![Seq::<char>::empty()].last() == Seq::<char>::empty());
        assert(named_parts(seq![Seq::<char>::empty()]) == named_parts(
            Seq::<Seq<char>>::empty(),
        ));
        assert(components(base) =~= Seq::<Seq<char>>::empty());
        let head = if leads_with_cur_dir(file) {
            seq![seq!['.']]
        } else {
            Seq::<Seq<char>>::empty()
        };
        assert(components(file) =~= head + n);
        lemma_resolve_plain_suffix(head, n);
        assert(resolve_dots(components(base)) =~= Seq::<Seq<char>>::empty());
        let q = resolve_dots(components(file));
        let h = resolve_dots(head);
        assert(q == h + n);
        if leads_with_cur_dir(file) {
            assert(head.drop_last() =~= Seq::<Seq<char>>::empty());
            assert(resolve_dots(Seq::<Seq<char>>::empty()) =~= Seq::<Seq<char>>::empty());
            assert(h =~= seq![seq!['.']]);
            assert(seq!['.'] != seq!['.', '.']) by {
                assert(seq!['.'].len() != seq!['.', '.'].len());
            }
        } else {
            assert(h =~= Seq::<Seq<char>>::empty());
        }
        assert forall|k: int| 0 <= k < q.len() implies q[k] != seq!['.', '.'] by {
            if k < h.len() {
                assert(q[k] == h[k]);
            } else {
                assert(q[k] == n[k - h.len()]);
            }
        }
    }
}

// ── executable code ─────────────────────────────────────────────────────────

/// `base` joined with `p`, as `Path::join` does it.
pub fn join(base: &str, p: &str) -> (r: String)
    ensures
        r@ == join_path(base@, p@),
{
    let b = chars_of(base);
    let q = chars_of(p);
    let mut r = String::new();
    if q.len() > 0 && q[0] == '/' {
        push_str(&mut r, p);
        return r;
    }
    push_str(&mut r, base);
    if b.len() > 0 && b[b.len() - 1] != '/' {
        r.push('/');
    }
    push_str(&mut r, p);
    r
}

/// The characters of each component.
pub open spec fn parts_view(v: Seq<Vec<char>>) -> Seq<Seq<char>> {
    v.map_values(|c: Vec<char>| c@)
}

/// Keeps the piece `v[from..to]` when it names a component.
fn push_named_part(parts: &mut Vec<Vec<char>>, v: &Vec<char>, from: usize, to: usize)
    requires
        from <= to <= v@.len(),
    ensures
        parts_view(final(parts)@) == if is_named_part(v@.subrange(from as int, to as int)) {
            parts_view(old(parts)@).push(v@.subrange(from as int, to as int))
        } else {
            parts_view(old(parts)@)
        },
{
    let ghost piece = v@.subrange(from as int, to as int);
    let dot = to - from == 1 && v[from] == '.';
    proof {
        if piece == seq!['.'] {
            assert(piece.len() == 1);
            assert(piece[0] == v@[from as int]);
        }
        if dot {
            assert(piece =~= seq!['.']);
        }
    }
    if to > from && !dot {
        let mut part: Vec<char> = Vec::new();
        let mut i: usize = from;
        while i < to
            invariant
                from <= i <= to <= v@.len(),
                part@ == v@.subrange(from as int, i as int),
            decreases to - i,
        {
            part.push(v[i]);
            assert(v@.subrange(from as int, i + 1) =~= v@.subrange(from as int, i as int).push(
                v@[i as int],
            ));
            i = i + 1;
        }
        parts.push(part);
        assert(parts_view(parts@) =~= parts_view(old(parts)@).push(piece));
    }
}

/// The components of `p`, as `Path::components` yields them.
pub fn path_components(p: &str) -> (v: Vec<Vec<char>>)
    ensures
        parts_view(v@) == components(p@),
{
    let cs = chars_of(p);
    let mut parts: Vec<Vec<char>> = Vec::new();
    let n: usize = cs.len();
    if n > 0 && cs[0] == '/' {
        let mut root: Vec<char> = Vec::new();
        root.push('/');
        parts.push(root);
    } else if n > 0 && cs[0] == '.' && (n == 1 || cs[1] == '/') {
        let mut cur: Vec<char> = Vec::new();
        cur.push('.');
        parts.push(cur);
    }
    let ghost head = parts_view(parts@);
    assert(components(p@) =~= head + named_parts(split_on(p@, '/')));
    let ghost mut done: Seq<Seq<char>> = Seq::empty();
    let mut start: usize = 0;
    let mut i: usize = 0;
    assert(cs@.take(0) =~= Seq::<char>::empty());
    assert(cs@.subrange(0, 0) =~= Seq::<char>::empty());
    while i < n
        invariant
            n == cs@.len(),
            cs@ == p@,
            start <= i <= n,
            split_on(cs@.take(i as int), '/') == done.push(cs@.subrange(start as int, i as int)),
            parts_view(parts@) == head + named_parts(done),
        decreases n - i,
    {
        let c = cs[i];
        let ghost piece = cs@.subrange(start as int, i as int);
        assert(cs@.take(i + 1).drop_last() =~= cs@.take(i as int));
        assert(cs@.take(i + 1).last() == c);
        if c == '/' {
            push_named_part(&mut parts, &cs, start, i);
            proof {
                let d2 = done.push(piece);
                assert(d2.drop_last() =~= done);
                assert(parts_view(parts@) =~= head + named_parts(d2));
                done = d2;
            }
            start = i + 1;
            assert(cs@.subrange(start as int, i + 1) =~= Seq::<char>::empty());
        } else {
            assert(cs@.subrange(start as int, i + 1) =~= piece.push(c));
            assert(done.push(piece).update(done.len() as int, piece.push(c)) =~= done.push(
                piece.push(c),
            ));
        }
        i = i + 1;
    }
    assert(cs@.take(n as int) =~= cs@);
    push_named_part(&mut parts, &cs, start, n);
    proof {
        let d2 = done.push(cs@.subrange(start as int, n as int));
        assert(d2.drop_last() =~= done);
        assert(parts_view(parts@) =~= head + named_parts(d2));
    }
    parts
}

/// Whether two components are the same.
fn same_part(a: &Vec<char>, b: &Vec<char>) -> (r: bool)
    ensures
        r == (a@ == b@),
{
    if a.len() != b.len() {
        return false;
    }
    let mut i: usize = 0;
    while i < a.len()
        invariant
            a@.len() == b@.len(),
            i <= a@.len(),
            forall|k: int| 0 <= k < i ==> a@[k] == b@[k],
        decreases a.len() - i,
    {
        if a[i] != b[i] {
            return false;
        }
        i = i + 1;
    }
    assert(a@ =~= b@);
    true
}

/// Whether `p` starts with `base`, component by component.
pub fn starts_with(p: &str, base: &str) -> (r: bool)
    ensures
        r == path_starts_with(p@, base@),
{
    let pc = path_components(p);
    let bc = path_components(base);
    if bc.len() > pc.len() {
        return false;
    }
    let mut i: usize = 0;
    while i < bc.len()
        invariant
            bc@.len() <= pc@.len(),
            i <= bc@.len(),
            parts_view(pc@) == components(p@),
            parts_view(bc@) == components(base@),
            forall|k: int| 0 <= k < i ==> components(base@)[k] == components(p@)[k],
        decreases bc.len() - i,
    {
        if !same_part(&bc[i], &pc[i]) {
            assert(components(base@)[i as int] != components(p@)[i as int]);
            return false;
        }
        i = i + 1;
    }
    true
}

/// A copy of a component.
fn copy_part(p: &Vec<char>) -> (c: Vec<char>)
    ensures
        c@ == p@,
{
    let mut c: Vec<char> = Vec::new();
    let mut i: usize = 0;
    while i < p.len()
        invariant
            i <= p@.len(),
            c@ == p@.take(i as int),
        decreases p.len() - i,
    {
        c.push(p[i]);
        assert(p@.take(i + 1) =~= p@.take(i as int).push(p@[i as int]));
        i = i + 1;
    }
    assert(p@.take(p@.len() as int) =~= p@);
    c
}

/// Whether a component is `..`.
fn is_parent(p: &Vec<char>) -> (b: bool)
    ensures
        b == (p@ == seq!['.', '.']),
{
    let b = p.len() == 2 && p[0] == '.' && p[1] == '.';
    assert(b ==> p@ =~= seq!['.', '.']);
    b
}

/// Whether a component names a directory entry.
fn is_entry(p: &Vec<char>) -> (b: bool)
    ensures
        b == is_entry_name(p@),
{
    let root = p.len() == 1 && p[0] == '/';
    let cur = p.len() == 1 && p[0] == '.';
    assert(root ==> p@ =~= seq!['/']);
    assert(cur ==> p@ =~= seq!['.']);
    assert(p@ == seq!['/'] ==> p@[0] == '/' && p@.len() == 1);
    assert(p@ == seq!['.'] ==> p@[0] == '.' && p@.len() == 1);
    assert(p@ == seq!['.', '.'] ==> p@[0] == '.' && p@[1] == '.' && p@.len() == 2);
    !root && !cur && !is_parent(p)
}

/// Components with every `..` resolved lexically.
pub fn resolve_parts(v: &Vec<Vec<char>>) -> (r: Vec<Vec<char>>)
    ensures
        parts_view(r@) == resolve_dots(parts_view(v@)),
{
    let mut acc: Vec<Vec<char>> = Vec::new();
    let mut i: usize = 0;
    assert(parts_view(v@).take(0) =~= Seq::<Seq<char>>::empty());
    while i < v.len()
        invariant
            i <= v@.len(),
            parts_view(acc@) == resolve_dots(parts_view(v@).take(i as int)),
        decreases v.len() - i,
    {
        let ghost before = parts_view(acc@);
        let c = &v[i];
        proof {
            let t = parts_view(v@).take(i + 1);
            assert(t.drop_last() =~= parts_view(v@).take(i as int));
            assert(t.last() == c@);
        }
        if is_parent(c) {
            let n = acc.len();
            if n > 0 && is_entry(&acc[n - 1]) {
                acc.pop();
                assert(parts_view(acc@) =~= before.drop_last());
            } else if n == 1 && acc[0].len() == 1 && acc[0][0] == '/' {
                assert(before =~= seq![seq!['/']]);
            } else {
                proof {
                    if before == seq![seq!['/']] {
                        assert(before[0] == acc@[0]@);
                        assert(acc@[0]@[0] == '/');
                    }
                }
                acc.push(copy_part(c));
                assert(parts_view(acc@) =~= before.push(c@));
            }
        } else {
            acc.push(copy_part(c));
            assert(parts_view(acc@) =~= before.push(c@));
        }
        i = i + 1;
    }
    assert(parts_view(v@).take(v@.len() as int) =~= parts_view(v@));
    acc
}

/// Whether `p` lies under `base` once `..` is resolved in both.
pub fn lies_under(p: &str, base: &str) -> (r: bool)
    ensures
        r == stays_under(p@, base@),
{
    let pc = path_components(p);
    let bc = path_components(base);
    let pr = resolve_parts(&pc);
    let br = resolve_parts(&bc);
    if br.len() > pr.len() {
        return false;
    }
    let mut i: usize = 0;
    while i < br.len()
        invariant
            br@.len() <= pr@.len(),
            i <= br@.len(),
            parts_view(pr@) == resolve_dots(components(p@)),
            parts_view(br@) == resolve_dots(components(base@)),
            forall|k: int| 0 <= k < i ==> parts_view(br@)[k] == parts_view(pr@)[k],
        decreases br.len() - i,
    {
        if !same_part(&br[i], &pr[i]) {
            assert(parts_view(br@)[i as int] != parts_view(pr@)[i as int]);
            return false;
        }
        i = i + 1;
    }
    assert(parts_view(br@).is_prefix_of(parts_view(pr@)));
    let mut k: usize = br.len();
    while k < pr.len()
        invariant
            br@.len() <= k <= pr@.len(),
            parts_view(pr@) == resolve_dots(components(p@)),
            parts_view(br@) == resolve_dots(components(base@)),
            forall|m: int| br@.len() <= m < k ==> parts_view(pr@)[m] != seq!['.', '.'],
        decreases pr.len() - k,
    {
        if is_parent(&pr[k]) {
            assert(parts_view(pr@)[k as int] == seq!['.', '.']);
            return false;
        }
        k = k + 1;
    }
    true
}

/// Where a file named in the ledger lives: `output_dir` joined with `file`,
/// unless that path, with `..` resolved, does not lie under `output_dir` (an
/// absolute path elsewhere, or one whose `..` parts climb out), in which case
/// the file is left alone.
pub fn file_inside(output_dir: &str, file: &str) -> (r: Option<String>)
    ensures
        r is Some <==> stays_under(join_path(output_dir@, file@), output_dir@),
        r matches Some(p) ==> p@ == join_path(output_dir@, file@),
{
    let resolved = join(output_dir, file);
    if lies_under(resolved.as_str(), output_dir) {
        Some(resolved)
    } else {
        None
    }
}

} // verus!
