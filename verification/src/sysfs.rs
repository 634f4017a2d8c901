//! The device tree every sysfs path in this crate is resolved against.
//!
//! A [`SysRoot`] holds the relevant part of a sysfs tree as plain values:
//! the root it was read from, every file with its contents (or the error
//! opening it gives), the directories, and the writes made since it was
//! filled. The program around the library fills it from the real `/sys` (or
//! from `--sysfs-root`) and carries the recorded writes out; tests build one
//! in memory. Everything the library decides, it decides on this value.

use vstd::prelude::*;

use crate::error::{dir_fault, fault_error, HwError, HwErrorView, IoFault, IoFaultView};
use crate::text::{
    cat, chars_eq, chars_lt, chars_of, debug_quoted, join, lemma_lt_asymmetric, lemma_lt_irreflexive,
    lemma_lt_total, lemma_lt_transitive, dec, lemma_parse_dec, lemma_trim_dec, owned, parse_dec, parse_unsigned, push_char, seq_lt,
    starts_with, str_debug, str_eq, string_of, trim, trimmed, has_prefix,
};

verus! {

/// What a path in the tree is.
#[derive(Debug, Clone)]
pub enum Entry {
    /// A regular attribute file and its contents.
    File(String),
    /// A directory.
    Dir,
    /// A path that exists but whose opening fails as described.
    Fault(IoFault),
    /// A file that reads as the contents given but whose opening for
    /// writing fails as described (one without write permission, say).
    Locked(String, IoFault),
}

pub enum EntryView {
    File(Seq<char>),
    Dir,
    Fault(IoFaultView),
    Locked(Seq<char>, IoFaultView),
}

impl View for Entry {
    type V = EntryView;

    open spec fn view(&self) -> EntryView {
        match self {
            Entry::File(c) => EntryView::File(c@),
            Entry::Dir => EntryView::Dir,
            Entry::Fault(f) => EntryView::Fault(f@),
            Entry::Locked(c, f) => EntryView::Locked(c@, f@),
        }
    }
}

struct Node {
    path: String,
    entry: Entry,
}

/// The root every sysfs path in this crate is resolved against, with the
/// tree below it.
pub struct SysRoot {
    base: String,
    nodes: Vec<Node>,
    writes: Vec<(String, String)>,
}

/// A tree as the contracts see it: its root, the entries by relative path,
/// and the writes made so far (path and value, in order).
pub struct SysView {
    pub base: Seq<char>,
    pub tree: Map<Seq<char>, EntryView>,
    pub writes: Seq<(Seq<char>, Seq<char>)>,
}

/// `a/b`.
pub open spec fn subpath(a: Seq<char>, b: Seq<char>) -> Seq<char> {
    a + seq!['/'] + b
}

/// `PathBuf::join` of a relative-or-absolute `rel` onto `base`.
pub open spec fn join_path(base: Seq<char>, rel: Seq<char>) -> Seq<char> {
    if rel.len() > 0 && rel[0] == '/' {
        rel
    } else if base.len() == 0 || base.last() == '/' {
        base + rel
    } else {
        subpath(base, rel)
    }
}

/// Length of the first path component of `s`.
pub open spec fn seg_len(s: Seq<char>) -> nat
    decreases s.len(),
{
    if s.len() == 0 || s[0] == '/' {
        0
    } else {
        1 + seg_len(s.drop_first())
    }
}

/// The name of the entry of directory `dir` that path `k` lies in, if `k`
/// lies below `dir`.
pub open spec fn child_name(dir: Seq<char>, k: Seq<char>) -> Option<Seq<char>> {
    let pre = dir.push('/');
    if starts_with(k, pre) {
        let rest = k.skip(pre.len() as int);
        let n = rest.take(seg_len(rest) as int);
        if n.len() > 0 {
            Some(n)
        } else {
            None
        }
    } else {
        None
    }
}

/// Every element is smaller than every later one.
pub open spec fn sorted_strict(s: Seq<Seq<char>>) -> bool {
    forall|i: int, j: int| 0 <= i < j < s.len() ==> seq_lt(#[trigger] s[i], #[trigger] s[j])
}

/// The names of `s` in increasing order.
pub open spec fn sorted_of(s: Set<Seq<char>>) -> Seq<Seq<char>> {
    choose|l: Seq<Seq<char>>| sorted_strict(l) && l.to_set() == s
}

/// The views of a sequence of `String`s.
pub open spec fn strings(v: Seq<String>) -> Seq<Seq<char>> {
    v.map_values(|s: String| s@)
}

impl SysView {
    /// Does the path exist (as a file, a directory, or the root)?
    pub open spec fn has_path(self, p: Seq<char>) -> bool {
        ||| p.len() == 0
        ||| self.tree.contains_key(p)
        ||| exists|k: Seq<char>| self.tree.contains_key(k) && #[trigger] starts_with(k, p.push('/'))
    }

    /// The names of the entries of directory `dir`.
    pub open spec fn children(self, dir: Seq<char>) -> Set<Seq<char>> {
        Set::new(
            |n: Seq<char>|
                exists|k: Seq<char>| self.tree.contains_key(k) && #[trigger] child_name(dir, k) == Some(n),
        )
    }

    /// `s` lists the entries of `dir`, sorted.
    pub open spec fn is_listing(self, dir: Seq<char>, s: Seq<Seq<char>>) -> bool {
        sorted_strict(s) && s.to_set() == self.children(dir)
    }

    /// The sorted names of the entries of `dir`.
    pub open spec fn listing(self, dir: Seq<char>) -> Seq<Seq<char>> {
        sorted_of(self.children(dir))
    }

    /// What reading the file at `p` gives, trimmed.
    pub open spec fn read(self, p: Seq<char>) -> Result<Seq<char>, HwErrorView> {
        if self.tree.contains_key(p) {
            match self.tree[p] {
                EntryView::File(c) => Ok(trim(c)),
                EntryView::Locked(c, _) => Ok(trim(c)),
                EntryView::Fault(f) => Err(fault_error(f)),
                EntryView::Dir => Err(HwErrorView::Io(dir_fault())),
            }
        } else if self.has_path(p) {
            Err(HwErrorView::Io(dir_fault()))
        } else {
            Err(HwErrorView::NotSupported)
        }
    }

    /// The trimmed contents of the file at `p`, when it can be read.
    pub open spec fn read_opt(self, p: Seq<char>) -> Option<Seq<char>> {
        match self.read(p) {
            Ok(c) => Some(c),
            Err(_) => None,
        }
    }

    /// What writing to `p` reports: a path that does not exist is not
    /// supported, a directory cannot be written, and a file that cannot be
    /// opened for writing fails as its opening does; any other path that
    /// exists is written, a file that could not be read included (a
    /// write-only attribute, say) — what the kernel makes of the write shows
    /// when it is carried out.
    pub open spec fn write_result(self, p: Seq<char>) -> Result<(), HwErrorView> {
        if !self.has_path(p) {
            Err(HwErrorView::NotSupported)
        } else if self.tree.contains_key(p) {
            match self.tree[p] {
                EntryView::File(_) => Ok(()),
                EntryView::Fault(_) => Ok(()),
                EntryView::Locked(_, f) => Err(fault_error(f)),
                EntryView::Dir => Err(HwErrorView::Io(dir_fault())),
            }
        } else {
            Err(HwErrorView::Io(dir_fault()))
        }
    }

    /// The tree after writing `v` to `p`.
    pub open spec fn after_write(self, p: Seq<char>, v: Seq<char>) -> SysView {
        if self.write_result(p) is Ok {
            SysView {
                base: self.base,
                tree: self.tree.insert(p, EntryView::File(v)),
                writes: self.writes.push((p, v)),
            }
        } else {
            self
        }
    }
}

/// Two sorted sequences with the same elements are the same sequence.
pub proof fn lemma_sorted_unique(s: Seq<Seq<char>>, t: Seq<Seq<char>>)
    requires
        sorted_strict(s),
        sorted_strict(t),
        s.to_set() == t.to_set(),
    ensures
        s == t,
    decreases s.len(),
{
    if s.len() == 0 {
        if t.len() > 0 {
            assert(s.to_set().contains(t[0]));
        }
        assert(s =~= t);
    } else {
        assert(t.to_set().contains(s[0]));
        assert(t.len() > 0);
        assert(s.to_set().contains(t[0]));
        let i = choose|i: int| 0 <= i < s.len() && s[i] == t[0];
        let j = choose|j: int| 0 <= j < t.len() && t[j] == s[0];
        if s[0] != t[0] {
            assert(i > 0 && j > 0);
            assert(seq_lt(s[0], s[i]));
            assert(seq_lt(t[0], t[j]));
            lemma_lt_asymmetric(s[0], t[0]);
        }
        let s2 = s.drop_first();
        let t2 = t.drop_first();
        assert forall|x: Seq<char>| s2.to_set().contains(x) implies t2.to_set().contains(x) by {
            let a = choose|a: int| 0 <= a < s2.len() && s2[a] == x;
            assert(s[a + 1] == x);
            assert(seq_lt(s[0], x));
            lemma_lt_irreflexive(x);
            assert(t.to_set().contains(x));
            let b = choose|b: int| 0 <= b < t.len() && t[b] == x;
            assert(b != 0);
            assert(t2[b - 1] == x);
        }
        assert forall|x: Seq<char>| t2.to_set().contains(x) implies s2.to_set().contains(x) by {
            let a = choose|a: int| 0 <= a < t2.len() && t2[a] == x;
            assert(t[a + 1] == x);
            assert(seq_lt(t[0], x));
            lemma_lt_irreflexive(x);
            assert(s.to_set().contains(x));
            let b = choose|b: int| 0 <= b < s.len() && s[b] == x;
            assert(b != 0);
            assert(s2[b - 1] == x);
        }
        assert(s2.to_set() =~= t2.to_set());
        assert forall|a: int, b: int| 0 <= a < b < s2.len() implies seq_lt(
            #[trigger] s2[a],
            #[trigger] s2[b],
        ) by {
            assert(s2[a] == s[a + 1] && s2[b] == s[b + 1]);
        }
        assert forall|a: int, b: int| 0 <= a < b < t2.len() implies seq_lt(
            #[trigger] t2[a],
            #[trigger] t2[b],
        ) by {
            assert(t2[a] == t[a + 1] && t2[b] == t[b + 1]);
        }
        lemma_sorted_unique(s2, t2);
        assert(s =~= seq![s[0]] + s2);
        assert(t =~= seq![t[0]] + t2);
    }
}

/// Keeping the names of a sorted sequence that satisfy `p` gives a sorted
/// sequence holding exactly those names.
pub proof fn lemma_sorted_filter(s: Seq<Seq<char>>, p: spec_fn(Seq<char>) -> bool)
    requires
        sorted_strict(s),
    ensures
        sorted_strict(s.filter(p)),
        forall|x: Seq<char>| #[trigger] s.filter(p).contains(x) <==> s.contains(x) && p(x),
    decreases s.len(),
{
    reveal(Seq::filter);
    if s.len() > 0 {
        let t = s.drop_last();
        let l = s.last();
        assert forall|a: int, b: int| 0 <= a < b < t.len() implies seq_lt(#[trigger] t[a], #[trigger] t[b]) by {
            assert(t[a] == s[a] && t[b] == s[b]);
        }
        lemma_sorted_filter(t, p);
        let f = t.filter(p);
        assert(s.filter(p) == if p(l) {
            f.push(l)
        } else {
            f
        });
        assert forall|x: Seq<char>| #[trigger] s.contains(x) <==> t.contains(x) || x == l by {
            if s.contains(x) {
                let k = choose|k: int| 0 <= k < s.len() && s[k] == x;
                if k < s.len() - 1 {
                    assert(t[k] == x);
                }
            }
            if t.contains(x) {
                let k = choose|k: int| 0 <= k < t.len() && t[k] == x;
                assert(s[k] == x);
            }
            if x == l {
                assert(s[s.len() - 1] == x);
            }
        }
        if p(l) {
            let g = f.push(l);
            assert forall|a: int, b: int| 0 <= a < b < g.len() implies seq_lt(#[trigger] g[a], #[trigger] g[b]) by {
                if b == g.len() - 1 {
                    assert(f.contains(g[a]));
                    let k = choose|k: int| 0 <= k < t.len() && t[k] == g[a];
                    assert(s[k] == g[a]);
                    assert(s[s.len() - 1] == l);
                } else {
                    assert(g[a] == f[a] && g[b] == f[b]);
                }
            }
            assert forall|x: Seq<char>| #[trigger] g.contains(x) <==> f.contains(x) || x == l by {
                if g.contains(x) {
                    let k = choose|k: int| 0 <= k < g.len() && g[k] == x;
                    if k < f.len() {
                        assert(f[k] == x);
                    }
                }
                if f.contains(x) {
                    let k = choose|k: int| 0 <= k < f.len() && f[k] == x;
                    assert(g[k] == x);
                }
                if x == l {
                    assert(g[g.len() - 1] == x);
                }
            }
        }
    }
}

/// The entries of a path that does not exist: none.
pub proof fn lemma_no_children(v: SysView, dir: Seq<char>)
    requires
        !v.has_path(dir),
    ensures
        v.children(dir) == Set::<Seq<char>>::empty(),
{
    assert forall|n: Seq<char>| !v.children(dir).contains(n) by {
        if v.children(dir).contains(n) {
            let k = choose|k: Seq<char>| v.tree.contains_key(k) && #[trigger] child_name(dir, k) == Some(n);
            assert(starts_with(k, dir.push('/')));
        }
    }
    assert(v.children(dir) =~= Set::<Seq<char>>::empty());
}

/// A listing, once one is known to exist, is `listing`.
pub proof fn lemma_listing_is(v: SysView, dir: Seq<char>, s: Seq<Seq<char>>)
    requires
        v.is_listing(dir, s),
    ensures
        v.listing(dir) == s,
        v.is_listing(dir, v.listing(dir)),
{
    let l = v.listing(dir);
    assert(v.is_listing(dir, l));
    lemma_sorted_unique(s, l);
}

/// Writing a file leaves every path, and so every directory listing, as it
/// was.
pub proof fn lemma_write_keeps_paths(v: SysView, p: Seq<char>, val: Seq<char>)
    ensures
        v.after_write(p, val).tree.dom() == v.tree.dom(),
        forall|q: Seq<char>| #[trigger] v.after_write(p, val).has_path(q) == v.has_path(q),
        forall|d: Seq<char>| #[trigger] v.after_write(p, val).listing(d) == v.listing(d),
{
    let w = v.after_write(p, val);
    if v.write_result(p) is Ok {
        assert(w.tree.dom() =~= v.tree.dom());
        assert forall|d: Seq<char>| #[trigger] w.listing(d) == v.listing(d) by {
            assert(w.children(d) =~= v.children(d));
        }
        assert forall|q: Seq<char>| #[trigger] w.has_path(q) == v.has_path(q) by {
            if v.has_path(q) && q.len() != 0 && !v.tree.contains_key(q) {
                let k = choose|k: Seq<char>| v.tree.contains_key(k) && #[trigger] starts_with(k, q.push('/'));
                assert(w.tree.contains_key(k));
            }
            if w.has_path(q) && q.len() != 0 && !w.tree.contains_key(q) {
                let k = choose|k: Seq<char>| w.tree.contains_key(k) && #[trigger] starts_with(k, q.push('/'));
                assert(v.tree.contains_key(k));
            }
        }
    }
}

/// After a write, the file written reads back as the value written
/// (trimmed) and every other file reads as before; a refused write changes
/// nothing.
pub proof fn lemma_write_reads(v: SysView, p: Seq<char>, val: Seq<char>, q: Seq<char>)
    ensures
        v.write_result(p) is Ok ==> v.after_write(p, val).read(p) == Ok::<Seq<char>, HwErrorView>(
            trim(val),
        ),
        q != p ==> v.after_write(p, val).read(q) == v.read(q),
        v.write_result(p) is Err ==> v.after_write(p, val) == v,
{
    lemma_write_keeps_paths(v, p, val);
    let w = v.after_write(p, val);
    assert(w.has_path(q) == v.has_path(q));
}

/// `first_named` depends only on what the entries' `name` files read.
pub proof fn lemma_first_named_frame(
    a: SysView,
    b: SysView,
    dir: Seq<char>,
    es: Seq<Seq<char>>,
    w: Seq<char>,
)
    requires
        forall|i: int|
            0 <= i < es.len() ==> a.read_opt(subpath(subpath(dir, #[trigger] es[i]), "name"@))
                == b.read_opt(subpath(subpath(dir, es[i]), "name"@)),
    ensures
        first_named(a, dir, es, w) == first_named(b, dir, es, w),
    decreases es.len(),
{
    if es.len() > 0 {
        let t = es.drop_first();
        assert forall|i: int|
            0 <= i < t.len() implies a.read_opt(subpath(subpath(dir, #[trigger] t[i]), "name"@))
                == b.read_opt(subpath(subpath(dir, t[i]), "name"@)) by {
            assert(t[i] == es[i + 1]);
        }
        assert(a.read_opt(subpath(subpath(dir, es[0]), "name"@)) == b.read_opt(
            subpath(subpath(dir, es[0]), "name"@),
        ));
        lemma_first_named_frame(a, b, dir, t, w);
    }
}

/// The entry `first_named` picks is one whose `name` file reads `w`, and
/// it picks one whenever some entry qualifies.
pub proof fn lemma_first_named_found(v: SysView, dir: Seq<char>, es: Seq<Seq<char>>, w: Seq<char>)
    ensures
        match first_named(v, dir, es, w) {
            Some(d) => exists|i: int|
                0 <= i < es.len() && d == subpath(dir, #[trigger] es[i]) && v.read_opt(
                    subpath(d, "name"@),
                ) == Some(w),
            None => forall|i: int|
                0 <= i < es.len() ==> v.read_opt(subpath(subpath(dir, #[trigger] es[i]), "name"@))
                    != Some(w),
        },
    decreases es.len(),
{
    if es.len() > 0 {
        let t = es.drop_first();
        lemma_first_named_found(v, dir, t, w);
        if v.read_opt(subpath(subpath(dir, es[0]), "name"@)) != Some(w) {
            match first_named(v, dir, t, w) {
                Some(d) => {
                    let i = choose|i: int|
                        0 <= i < t.len() && d == subpath(dir, #[trigger] t[i]) && v.read_opt(
                            subpath(d, "name"@),
                        ) == Some(w);
                    assert(es[i + 1] == t[i]);
                },
                None => {
                    assert forall|i: int|
                        0 <= i < es.len() implies v.read_opt(
                        subpath(subpath(dir, #[trigger] es[i]), "name"@),
                    ) != Some(w) by {
                        if i > 0 {
                            assert(es[i] == t[i - 1]);
                        }
                    }
                },
            }
        }
    }
}

/// Paths whose last components differ are different paths.
pub proof fn lemma_leaf_differs(x: Seq<char>, y: Seq<char>, a: Seq<char>, b: Seq<char>)
    requires
        a != b,
        forall|i: int| 0 <= i < a.len() ==> #[trigger] a[i] != '/',
        forall|i: int| 0 <= i < b.len() ==> #[trigger] b[i] != '/',
    ensures
        subpath(x, a) != subpath(y, b),
{
    let xx = x + seq!['/'];
    let yy = y + seq!['/'];
    let s = subpath(x, a);
    let t = subpath(y, b);
    assert(s == xx + a);
    assert(t == yy + b);
    if s == t {
        assert(s.len() == t.len());
        if a.len() < b.len() {
            assert(s[x.len() as int] == xx[x.len() as int]);
            assert(t[x.len() as int] == b[x.len() - yy.len()]);
        } else if a.len() > b.len() {
            assert(t[y.len() as int] == yy[y.len() as int]);
            assert(s[y.len() as int] == a[y.len() - xx.len()]);
        } else {
            assert forall|i: int| 0 <= i < a.len() implies a[i] == b[i] by {
                assert(s[x.len() + 1 + i] == a[i]);
                assert(t[y.len() + 1 + i] == b[i]);
            }
            assert(a =~= b);
        }
    }
}

/// A number written in decimal reads back as that number.
pub proof fn lemma_write_number(v: SysView, p: Seq<char>, n: u32)
    requires
        v.write_result(p) is Ok,
    ensures
        read_parsed_spec::<u32>(v.after_write(p, dec(n as nat)), p) == Ok::<u32, HwErrorView>(n),
{
    lemma_write_reads(v, p, dec(n as nat), p);
    lemma_trim_dec(n as nat);
    lemma_parse_dec(n as nat, u32::MAX as nat);
}

proof fn lemma_seg_len_at(s: Seq<char>, n: int)
    requires
        0 <= n <= s.len(),
        forall|i: int| 0 <= i < n ==> #[trigger] s[i] != '/',
        n == s.len() || s[n] == '/',
    ensures
        seg_len(s) == n,
    decreases n,
{
    if n > 0 {
        let t = s.drop_first();
        assert forall|i: int| 0 <= i < n - 1 implies #[trigger] t[i] != '/' by {
            assert(t[i] == s[i + 1]);
        }
        lemma_seg_len_at(t, n - 1);
    }
}

/// Insert `x` into a strictly sorted list, unless it is there already.
fn insert_sorted(names: &mut Vec<Vec<char>>, x: Vec<char>, Ghost(gs): Ghost<Seq<Seq<char>>>) -> (r:
    Ghost<Seq<Seq<char>>>)
    requires
        old(names)@.len() == gs.len(),
        forall|i: int| 0 <= i < gs.len() ==> #[trigger] old(names)@[i]@ == gs[i],
        sorted_strict(gs),
    ensures
        final(names)@.len() == r@.len(),
        forall|i: int| 0 <= i < r@.len() ==> #[trigger] final(names)@[i]@ == r@[i],
        sorted_strict(r@),
        r@.to_set() == gs.to_set().insert(x@),
{
    let mut i: usize = 0;
    while i < names.len() && chars_lt(&names[i], &x)
        invariant
            i <= names.len() == gs.len(),
            forall|k: int| 0 <= k < gs.len() ==> #[trigger] names@[k]@ == gs[k],
            forall|k: int| 0 <= k < i ==> seq_lt(#[trigger] gs[k], x@),
        decreases names.len() - i,
    {
        i = i + 1;
    }
    if i < names.len() && chars_eq(&names[i], &x) {
        assert(gs.to_set().insert(x@) =~= gs.to_set());
        return Ghost(gs);
    }
    let ghost ns = gs.insert(i as int, x@);
    proof {
        if i < gs.len() {
            lemma_lt_total(gs[i as int], x@);
        }
        assert forall|a: int, b: int| 0 <= a < b < ns.len() implies seq_lt(
            #[trigger] ns[a],
            #[trigger] ns[b],
        ) by {
            if b < i {
                assert(ns[a] == gs[a] && ns[b] == gs[b]);
            } else if b == i {
                assert(ns[a] == gs[a]);
            } else if a == i {
                assert(ns[b] == gs[b - 1]);
                if b - 1 > i {
                    assert(seq_lt(gs[i as int], gs[b - 1]));
                    lemma_lt_transitive(x@, gs[i as int], gs[b - 1]);
                }
            } else if a < i {
                assert(ns[a] == gs[a] && ns[b] == gs[b - 1]);
                assert(seq_lt(gs[a], x@));
                if b - 1 >= i {
                    if b - 1 > i {
                        assert(seq_lt(gs[i as int], gs[b - 1]));
                        lemma_lt_transitive(x@, gs[i as int], gs[b - 1]);
                    }
                    lemma_lt_transitive(gs[a], x@, gs[b - 1]);
                }
            } else {
                assert(ns[a] == gs[a - 1] && ns[b] == gs[b - 1]);
            }
        }
        assert forall|y: Seq<char>| #[trigger] ns.to_set().contains(y) == gs.to_set().insert(
            x@,
        ).contains(y) by {
            if ns.to_set().contains(y) {
                let a = choose|a: int| 0 <= a < ns.len() && ns[a] == y;
                if a < i {
                    assert(gs[a] == y);
                } else if a > i {
                    assert(gs[a - 1] == y);
                }
            }
            if gs.to_set().contains(y) {
                let a = choose|a: int| 0 <= a < gs.len() && gs[a] == y;
                if a < i {
                    assert(ns[a] == y);
                } else {
                    assert(ns[a + 1] == y);
                }
            }
            if y == x@ {
                assert(ns[i as int] == y);
            }
        }
        assert(ns.to_set() =~= gs.to_set().insert(x@));
    }
    names.insert(i, x);
    assert forall|k: int| 0 <= k < ns.len() implies #[trigger] names@[k]@ == ns[k] by {
        if k < i {
        } else if k > i {
            assert(names@[k] == old(names)@[k - 1]);
        }
    }
    Ghost(ns)
}

/// What `T::from_str` accepts for the numbers read out of sysfs.
pub trait SysfsNumber: Sized {
    /// The value `s` denotes, if it is one.
    spec fn parse_spec(s: Seq<char>) -> Option<Self>;

    /// `FromStr` for this type.
    fn parse_text(s: &str) -> (r: Option<Self>)
        ensures
            r == Self::parse_spec(s@),
    ;
}

impl SysfsNumber for u32 {
    open spec fn parse_spec(s: Seq<char>) -> Option<u32> {
        match parse_unsigned(s, u32::MAX as nat) {
            Some(v) => Some(v as u32),
            None => None,
        }
    }

    fn parse_text(s: &str) -> (r: Option<u32>) {
        match parse_dec(s, u32::MAX as u64) {
            Some(v) => Some(v as u32),
            None => None,
        }
    }
}

impl SysfsNumber for u64 {
    open spec fn parse_spec(s: Seq<char>) -> Option<u64> {
        match parse_unsigned(s, u64::MAX as nat) {
            Some(v) => Some(v as u64),
            None => None,
        }
    }

    fn parse_text(s: &str) -> (r: Option<u64>) {
        parse_dec(s, u64::MAX)
    }
}

/// What `read_parsed` gives for the file at `p`.
pub open spec fn read_parsed_spec<T: SysfsNumber>(v: SysView, p: Seq<char>) -> Result<
    T,
    HwErrorView,
> {
    match v.read(p) {
        Err(e) => Err(e),
        Ok(raw) => match T::parse_spec(raw) {
            Some(x) => Ok(x),
            None => Err(HwErrorView::Parse(p + ": "@ + str_debug(raw))),
        },
    }
}

/// Reading a number: when `p` is a file, the number its trimmed text
/// denotes (as `FromStr` reads it), or else a parse error naming the path
/// and the quoted text; when `p` does not exist, `NotSupported`.
pub proof fn lemma_read_parsed<T: SysfsNumber>(v: SysView, p: Seq<char>)
    ensures
        v.tree.contains_key(p) ==> match v.tree[p] {
            EntryView::File(c) => read_parsed_spec::<T>(v, p) == match T::parse_spec(trim(c)) {
                Some(x) => Ok::<T, HwErrorView>(x),
                None => Err(HwErrorView::Parse(p + ": "@ + str_debug(trim(c)))),
            },
            _ => true,
        },
        !v.has_path(p) ==> read_parsed_spec::<T>(v, p) == Err::<T, HwErrorView>(HwErrorView::NotSupported),
{
}

/// What `read_parsed_opt` gives for the file at `p`.
pub open spec fn read_parsed_opt_spec<T: SysfsNumber>(v: SysView, p: Seq<char>) -> Option<T> {
    match read_parsed_spec::<T>(v, p) {
        Ok(x) => Some(x),
        Err(_) => None,
    }
}

impl View for SysRoot {
    type V = SysView;

    closed spec fn view(&self) -> SysView {
        SysView {
            base: self.base@,
            tree: tree_of(self.nodes@),
            writes: self.writes@.map_values(|w: (String, String)| (w.0@, w.1@)),
        }
    }
}

spec fn has_node(nodes: Seq<Node>, p: Seq<char>) -> bool {
    exists|i: int| 0 <= i < nodes.len() && #[trigger] nodes[i].path@ == p
}

spec fn tree_of(nodes: Seq<Node>) -> Map<Seq<char>, EntryView> {
    Map::new(
        |p: Seq<char>| has_node(nodes, p),
        |p: Seq<char>|
            nodes[choose|i: int| 0 <= i < nodes.len() && #[trigger] nodes[i].path@ == p].entry@,
    )
}

spec fn distinct(nodes: Seq<Node>) -> bool {
    forall|i: int, j: int|
        0 <= i < nodes.len() && 0 <= j < nodes.len() && i != j ==> #[trigger] nodes[i].path@
            != #[trigger] nodes[j].path@
}

proof fn lemma_tree_at(nodes: Seq<Node>, i: int)
    requires
        distinct(nodes),
        0 <= i < nodes.len(),
    ensures
        tree_of(nodes).contains_key(nodes[i].path@),
        tree_of(nodes)[nodes[i].path@] == nodes[i].entry@,
{
    let p = nodes[i].path@;
    assert(has_node(nodes, p));
    let j = choose|j: int| 0 <= j < nodes.len() && #[trigger] nodes[j].path@ == p;
    assert(j == i);
}

impl SysRoot {
    #[verifier::type_invariant]
    spec fn inv(self) -> bool {
        distinct(self.nodes@)
    }

    /// Find the node at `rel`.
    fn find(&self, rel: &str) -> (r: Option<usize>)
        ensures
            match r {
                Some(i) => i < self.nodes@.len() && self.nodes@[i as int].path@ == rel@,
                None => !has_node(self.nodes@, rel@),
            },
    {
        let mut i: usize = 0;
        while i < self.nodes.len()
            invariant
                i <= self.nodes@.len(),
                forall|k: int| 0 <= k < i ==> #[trigger] self.nodes@[k].path@ != rel@,
            decreases self.nodes.len() - i,
        {
            if str_eq(self.nodes[i].path.as_str(), rel) {
                return Some(i);
            }
            i = i + 1;
        }
        None
    }

    /// An empty tree rooted at `base`.
    fn empty(base: String) -> (r: SysRoot)
        ensures
            r@.base == base@,
            r@.tree == Map::<Seq<char>, EntryView>::empty(),
            r@.writes == Seq::<(Seq<char>, Seq<char>)>::empty(),
    {
        let r = SysRoot { base, nodes: Vec::new(), writes: Vec::new() };
        assert(r@.tree =~= Map::<Seq<char>, EntryView>::empty());
        assert(r@.writes =~= Seq::<(Seq<char>, Seq<char>)>::empty());
        r
    }

    /// The real machine, with nothing read yet.
    pub fn system() -> (r: SysRoot)
        ensures
            r@.base == "/"@,
            r@.tree == Map::<Seq<char>, EntryView>::empty(),
            r@.writes == Seq::<(Seq<char>, Seq<char>)>::empty(),
    {
        SysRoot::empty(owned("/"))
    }

    /// An alternate root — used by tests and by the daemon's `--sysfs-root`.
    pub fn at(root: &str) -> (r: SysRoot)
        ensures
            r@.base == root@,
            r@.tree == Map::<Seq<char>, EntryView>::empty(),
            r@.writes == Seq::<(Seq<char>, Seq<char>)>::empty(),
    {
        SysRoot::empty(owned(root))
    }

    /// Resolve a *relative* sysfs path (e.g. `sys/class/...`) against the root.
    pub fn path(&self, rel: &str) -> (r: String)
        ensures
            r@ == join_path(self@.base, rel@),
    {
        let v = chars_of(rel);
        if v.len() > 0 && v[0] == '/' {
            return owned(rel);
        }
        let b = chars_of(self.base.as_str());
        if b.len() == 0 || b[b.len() - 1] == '/' {
            cat(self.base.as_str(), rel)
        } else {
            join(self.base.as_str(), rel)
        }
    }

    /// The root itself.
    pub fn as_path(&self) -> (r: &str)
        ensures
            r@ == self@.base,
    {
        self.base.as_str()
    }

    /// Set the entry at `rel`, replacing what was there.
    fn put(&mut self, rel: &str, entry: Entry) -> (ghost_unused: ())
        ensures
            final(self)@.base == old(self)@.base,
            final(self)@.writes == old(self)@.writes,
            final(self)@.tree == old(self)@.tree.insert(rel@, entry@),
    {
        proof {
            use_type_invariant(&*self);
        }
        let ghost old_nodes = self.nodes@;
        let node = Node { path: owned(rel), entry };
        let ghost nv = node.entry@;
        match self.find(rel) {
            Some(i) => {
                let mut nodes: Vec<Node> = Vec::new();
                std::mem::swap(&mut nodes, &mut self.nodes);
                nodes.set(i, node);
                proof {
                    let nn = nodes@;
                    assert(distinct(nn)) by {
                        assert forall|a: int, b: int|
                            0 <= a < nn.len() && 0 <= b < nn.len() && a != b implies #[trigger] nn[a].path@
                            != #[trigger] nn[b].path@ by {
                            if a != i && b != i {
                                assert(nn[a] == old_nodes[a] && nn[b] == old_nodes[b]);
                            } else if a == i {
                                assert(nn[b] == old_nodes[b]);
                            } else {
                                assert(nn[a] == old_nodes[a]);
                            }
                        }
                    }
                }
                self.nodes = nodes;
                proof {
                    let nn = self.nodes@;
                    assert(distinct(nn)) by {
                        assert forall|a: int, b: int|
                            0 <= a < nn.len() && 0 <= b < nn.len() && a != b implies #[trigger] nn[a].path@
                            != #[trigger] nn[b].path@ by {
                            if a != i && b != i {
                                assert(nn[a] == old_nodes[a] && nn[b] == old_nodes[b]);
                            } else if a == i {
                                assert(nn[b] == old_nodes[b]);
                            } else {
                                assert(nn[a] == old_nodes[a]);
                            }
                        }
                    }
                    assert forall|p: Seq<char>| #[trigger] tree_of(nn).contains_key(p)
                        == tree_of(old_nodes).insert(rel@, nv).contains_key(p) by {
                        if has_node(nn, p) {
                            let a = choose|a: int| 0 <= a < nn.len() && #[trigger] nn[a].path@ == p;
                            if a != i {
                                assert(old_nodes[a] == nn[a]);
                            }
                        }
                        if has_node(old_nodes, p) {
                            let a = choose|a: int|
                                0 <= a < old_nodes.len() && #[trigger] old_nodes[a].path@ == p;
                            if a != i {
                                assert(old_nodes[a] == nn[a]);
                            } else {
                                assert(nn[i as int].path@ == p);
                            }
                        }
                        if p == rel@ {
                            assert(nn[i as int].path@ == p);
                        }
                    }
                    assert forall|p: Seq<char>| #[trigger] tree_of(nn).contains_key(p) implies tree_of(
                        nn,
                    )[p] == tree_of(old_nodes).insert(rel@, nv)[p] by {
                        let a = choose|a: int| 0 <= a < nn.len() && #[trigger] nn[a].path@ == p;
                        lemma_tree_at(nn, a);
                        if a != i {
                            assert(old_nodes[a] == nn[a]);
                            lemma_tree_at(old_nodes, a);
                        }
                    }
                    assert(tree_of(nn) =~= tree_of(old_nodes).insert(rel@, nv));
                }
            },
            None => {
                let mut nodes: Vec<Node> = Vec::new();
                std::mem::swap(&mut nodes, &mut self.nodes);
                nodes.push(node);
                proof {
                    let nn = nodes@;
                    let last = old_nodes.len() as int;
                    assert(distinct(nn)) by {
                        assert forall|a: int, b: int|
                            0 <= a < nn.len() && 0 <= b < nn.len() && a != b implies #[trigger] nn[a].path@
                            != #[trigger] nn[b].path@ by {
                            if a != last && b != last {
                                assert(nn[a] == old_nodes[a] && nn[b] == old_nodes[b]);
                            } else if a == last {
                                assert(nn[b] == old_nodes[b]);
                            } else {
                                assert(nn[a] == old_nodes[a]);
                            }
                        }
                    }
                }
                self.nodes = nodes;
                proof {
                    let nn = self.nodes@;
                    let last = old_nodes.len() as int;
                    assert(distinct(nn)) by {
                        assert forall|a: int, b: int|
                            0 <= a < nn.len() && 0 <= b < nn.len() && a != b implies #[trigger] nn[a].path@
                            != #[trigger] nn[b].path@ by {
                            if a != last && b != last {
                                assert(nn[a] == old_nodes[a] && nn[b] == old_nodes[b]);
                            } else if a == last {
                                assert(nn[b] == old_nodes[b]);
                            } else {
                                assert(nn[a] == old_nodes[a]);
                            }
                        }
                    }
                    assert forall|p: Seq<char>| #[trigger] tree_of(nn).contains_key(p)
                        == tree_of(old_nodes).insert(rel@, nv).contains_key(p) by {
                        if has_node(nn, p) {
                            let a = choose|a: int| 0 <= a < nn.len() && #[trigger] nn[a].path@ == p;
                            if a != last {
                                assert(old_nodes[a] == nn[a]);
                            }
                        }
                        if has_node(old_nodes, p) {
                            let a = choose|a: int|
                                0 <= a < old_nodes.len() && #[trigger] old_nodes[a].path@ == p;
                            assert(old_nodes[a] == nn[a]);
                        }
                        if p == rel@ {
                            assert(nn[last].path@ == p);
                        }
                    }
                    assert forall|p: Seq<char>| #[trigger] tree_of(nn).contains_key(p) implies tree_of(
                        nn,
                    )[p] == tree_of(old_nodes).insert(rel@, nv)[p] by {
                        let a = choose|a: int| 0 <= a < nn.len() && #[trigger] nn[a].path@ == p;
                        lemma_tree_at(nn, a);
                        if a != last {
                            assert(old_nodes[a] == nn[a]);
                            lemma_tree_at(old_nodes, a);
                        }
                    }
                    assert(tree_of(nn) =~= tree_of(old_nodes).insert(rel@, nv));
                }
            },
        }
    }

    /// Record a file and its contents (creating or replacing it).
    pub fn put_file(&mut self, rel: &str, contents: &str)
        ensures
            final(self)@.base == old(self)@.base,
            final(self)@.writes == old(self)@.writes,
            final(self)@.tree == old(self)@.tree.insert(rel@, EntryView::File(contents@)),
    {
        let c = owned(contents);
        self.put(rel, Entry::File(c));
    }

    /// Record a directory.
    pub fn put_dir(&mut self, rel: &str)
        ensures
            final(self)@.base == old(self)@.base,
            final(self)@.writes == old(self)@.writes,
            final(self)@.tree == old(self)@.tree.insert(rel@, EntryView::Dir),
    {
        self.put(rel, Entry::Dir);
    }

    /// Record a path whose opening fails.
    pub fn put_fault(&mut self, rel: &str, fault: IoFault)
        ensures
            final(self)@.base == old(self)@.base,
            final(self)@.writes == old(self)@.writes,
            final(self)@.tree == old(self)@.tree.insert(rel@, EntryView::Fault(fault@)),
    {
        self.put(rel, Entry::Fault(fault));
    }

    /// Record a file that reads as `contents` but whose opening for writing
    /// fails as `fault` describes.
    pub fn put_locked(&mut self, rel: &str, contents: &str, fault: IoFault)
        ensures
            final(self)@.base == old(self)@.base,
            final(self)@.writes == old(self)@.writes,
            final(self)@.tree == old(self)@.tree.insert(rel@, EntryView::Locked(contents@, fault@)),
    {
        let c = owned(contents);
        self.put(rel, Entry::Locked(c, fault));
    }

    /// The raw contents of the file at `rel`, untrimmed.
    pub fn contents(&self, rel: &str) -> (r: Option<String>)
        ensures
            match r {
                Some(c) => self@.tree.contains_key(rel@) && self@.tree[rel@] == EntryView::File(c@),
                None => !(self@.tree.contains_key(rel@) && self@.tree[rel@] is File),
            },
    {
        proof {
            use_type_invariant(self);
        }
        match self.find(rel) {
            Some(i) => {
                proof {
                    lemma_tree_at(self.nodes@, i as int);
                }
                match &self.nodes[i].entry {
                    Entry::File(c) => Some(owned(c.as_str())),
                    _ => None,
                }
            },
            None => None,
        }
    }

    /// The writes made so far, in order, as (path, value) pairs.
    pub fn writes(&self) -> (r: Vec<(String, String)>)
        ensures
            r@.len() == self@.writes.len(),
            forall|i: int|
                0 <= i < r@.len() ==> (#[trigger] r@[i]).0@ == self@.writes[i].0 && r@[i].1@
                    == self@.writes[i].1,
    {
        let mut out: Vec<(String, String)> = Vec::new();
        let mut i: usize = 0;
        while i < self.writes.len()
            invariant
                i <= self.writes@.len(),
                out@.len() == i,
                forall|k: int|
                    0 <= k < i ==> (#[trigger] out@[k]).0@ == self.writes@[k].0@ && out@[k].1@
                        == self.writes@[k].1@,
            decreases self.writes.len() - i,
        {
            let p = owned(self.writes[i].0.as_str());
            let v = owned(self.writes[i].1.as_str());
            out.push((p, v));
            i = i + 1;
        }
        out
    }

    /// Does this relative path exist?
    pub fn path_exists(&self, rel: &str) -> (r: bool)
        ensures
            r == self@.has_path(rel@),
    {
        proof {
            use_type_invariant(self);
        }
        let v = chars_of(rel);
        if v.len() == 0 {
            return true;
        }
        let mut pre = owned(rel);
        push_char(&mut pre, '/');
        let mut i: usize = 0;
        while i < self.nodes.len()
            invariant
                i <= self.nodes@.len(),
                distinct(self.nodes@),
                pre@ == rel@.push('/'),
                forall|k: int|
                    0 <= k < i ==> #[trigger] self.nodes@[k].path@ != rel@ && !starts_with(
                        self.nodes@[k].path@,
                        pre@,
                    ),
            decreases self.nodes.len() - i,
        {
            let p = self.nodes[i].path.as_str();
            if str_eq(p, rel) {
                proof {
                    lemma_tree_at(self.nodes@, i as int);
                }
                return true;
            }
            if has_prefix(p, pre.as_str()) {
                proof {
                    lemma_tree_at(self.nodes@, i as int);
                }
                return true;
            }
            i = i + 1;
        }
        proof {
            assert forall|k: Seq<char>| self@.tree.contains_key(k) implies !#[trigger] starts_with(
                k,
                rel@.push('/'),
            ) by {
                let a = choose|a: int| 0 <= a < self.nodes@.len() && #[trigger] self.nodes@[a].path@ == k;
            }
            if self@.tree.contains_key(rel@) {
                let a = choose|a: int| 0 <= a < self.nodes@.len() && #[trigger] self.nodes@[a].path@ == rel@;
            }
        }
        false
    }

    /// Sorted names of the entries in a directory; empty when it is absent.
    pub fn list_dir(&self, rel: &str) -> (r: Vec<String>)
        ensures
            self@.is_listing(rel@, self@.listing(rel@)),
            strings(r@) == self@.listing(rel@),
    {
        proof {
            use_type_invariant(self);
        }
        let mut pre = owned(rel);
        push_char(&mut pre, '/');
        let pv = chars_of(pre.as_str());
        let mut names: Vec<Vec<char>> = Vec::new();
        let ghost mut gs: Seq<Seq<char>> = seq![];
        let mut i: usize = 0;
        while i < self.nodes.len()
            invariant
                i <= self.nodes@.len(),
                pv@ == rel@.push('/'),
                names@.len() == gs.len(),
                forall|k: int| 0 <= k < gs.len() ==> #[trigger] names@[k]@ == gs[k],
                sorted_strict(gs),
                forall|n: Seq<char>|
                    #[trigger] gs.to_set().contains(n) <==> exists|k: int|
                        0 <= k < i && child_name(rel@, #[trigger] self.nodes@[k].path@) == Some(n),
            decreases self.nodes.len() - i,
        {
            let p = chars_of(self.nodes[i].path.as_str());
            let ghost key = self.nodes@[i as int].path@;
            let mut found = false;
            if p.len() >= pv.len() {
                let mut m: usize = 0;
                let mut same = true;
                while m < pv.len()
                    invariant
                        m <= pv.len() <= p.len(),
                        same ==> forall|t: int| 0 <= t < m ==> p@[t] == pv@[t],
                        !same ==> p@.take(pv@.len() as int) != pv@,
                    decreases pv.len() - m,
                {
                    if p[m] != pv[m] {
                        proof {
                            assert(p@.take(pv@.len() as int)[m as int] != pv@[m as int]);
                        }
                        same = false;
                    }
                    m = m + 1;
                }
                if same {
                    assert(p@.take(pv@.len() as int) =~= pv@);
                    let s = pv.len();
                    let mut j = s;
                    while j < p.len() && p[j] != '/'
                        invariant
                            s <= j <= p.len(),
                            forall|t: int| s <= t < j ==> #[trigger] p@[t] != '/',
                        decreases p.len() - j,
                    {
                        j = j + 1;
                    }
                    proof {
                        let rest = p@.skip(s as int);
                        assert forall|t: int| 0 <= t < j - s implies #[trigger] rest[t] != '/' by {
                            assert(rest[t] == p@[t + s]);
                        }
                        if j < p.len() {
                            assert(rest[j - s] == p@[j as int]);
                        }
                        lemma_seg_len_at(rest, (j - s) as int);
                        assert(rest.take((j - s) as int) =~= p@.subrange(s as int, j as int));
                    }
                    if j > s {
                        let mut name: Vec<char> = Vec::new();
                        let mut t = s;
                        while t < j
                            invariant
                                s <= t <= j <= p.len(),
                                name@ == p@.subrange(s as int, t as int),
                            decreases j - t,
                        {
                            name.push(p[t]);
                            t = t + 1;
                            assert(name@ =~= p@.subrange(s as int, t as int));
                        }
                        let ghost nv = name@;
                        let g = insert_sorted(&mut names, name, Ghost(gs));
                        proof {
                            assert(child_name(rel@, key) == Some(nv));
                            gs = g@;
                        }
                        found = true;
                    } else {
                        proof {
                            assert(child_name(rel@, key) is None);
                        }
                    }
                } else {
                    proof {
                        assert(child_name(rel@, key) is None);
                    }
                }
            } else {
                proof {
                    assert(child_name(rel@, key) is None);
                }
            }
            proof {
                assert forall|n: Seq<char>| #[trigger] gs.to_set().contains(n) <==> exists|k: int|
                    0 <= k < i + 1 && child_name(rel@, #[trigger] self.nodes@[k].path@) == Some(n) by {
                    if exists|k: int|
                        0 <= k < i + 1 && child_name(rel@, #[trigger] self.nodes@[k].path@) == Some(
                            n,
                        ) {
                        let k = choose|k: int|
                            0 <= k < i + 1 && child_name(rel@, #[trigger] self.nodes@[k].path@)
                                == Some(n);
                        if k < i {
                            assert(exists|k2: int|
                                0 <= k2 < i && child_name(rel@, #[trigger] self.nodes@[k2].path@)
                                    == Some(n));
                        }
                    }
                }
            }
            i = i + 1;
        }
        proof {
            assert forall|n: Seq<char>| #[trigger] gs.to_set().contains(n) == self@.children(
                rel@,
            ).contains(n) by {
                if gs.to_set().contains(n) {
                    let k = choose|k: int|
                        0 <= k < self.nodes@.len() && child_name(rel@, #[trigger] self.nodes@[k].path@)
                            == Some(n);
                    lemma_tree_at(self.nodes@, k);
                }
                if self@.children(rel@).contains(n) {
                    let key = choose|key: Seq<char>|
                        self@.tree.contains_key(key) && #[trigger] child_name(rel@, key) == Some(n);
                    let k = choose|k: int| 0 <= k < self.nodes@.len() && #[trigger] self.nodes@[k].path@ == key;
                }
            }
            assert(gs.to_set() =~= self@.children(rel@));
            lemma_listing_is(self@, rel@, gs);
        }
        let mut out: Vec<String> = Vec::new();
        let mut k: usize = 0;
        while k < names.len()
            invariant
                k <= names@.len() == gs.len(),
                forall|q: int| 0 <= q < gs.len() ==> #[trigger] names@[q]@ == gs[q],
                out@.len() == k,
                forall|q: int| 0 <= q < k ==> #[trigger] out@[q]@ == gs[q],
            decreases names.len() - k,
        {
            out.push(string_of(&names[k]));
            k = k + 1;
        }
        assert(strings(out@) =~= gs);
        out
    }

    /// Read a sysfs file, trimming surrounding whitespace.
    pub fn read(&self, rel: &str) -> (r: Result<String, HwError>)
        ensures
            crate::error::rsv(r) == self@.read(rel@),
    {
        proof {
            use_type_invariant(self);
        }
        match self.find(rel) {
            Some(i) => {
                proof {
                    lemma_tree_at(self.nodes@, i as int);
                }
                match &self.nodes[i].entry {
                    Entry::File(c) => Ok(trimmed(c.as_str())),
                    Entry::Locked(c, _) => Ok(trimmed(c.as_str())),
                    Entry::Fault(f) => Err(HwError::from_fault(clone_fault(f))),
                    Entry::Dir => Err(HwError::Io(IoFault::directory())),
                }
            },
            None => {
                if self.path_exists(rel) {
                    Err(HwError::Io(IoFault::directory()))
                } else {
                    Err(HwError::NotSupported)
                }
            },
        }
    }

    /// Read a sysfs file, mapping "absent" to `None` instead of an error.
    pub fn read_opt(&self, rel: &str) -> (r: Option<String>)
        ensures
            match r {
                Some(c) => self@.read_opt(rel@) == Some(c@),
                None => self@.read_opt(rel@) is None,
            },
    {
        match self.read(rel) {
            Ok(c) => Some(c),
            Err(_) => None,
        }
    }

    /// Read and parse a sysfs file into a number.
    pub fn read_parsed<T: SysfsNumber>(&self, rel: &str) -> (r: Result<T, HwError>)
        ensures
            crate::error::rv(r) == read_parsed_spec::<T>(self@, rel@),
    {
        let raw = self.read(rel)?;
        match T::parse_text(raw.as_str()) {
            Some(x) => Ok(x),
            None => {
                let q = debug_quoted(raw.as_str());
                let head = cat(rel, ": ");
                Err(HwError::Parse(cat(head.as_str(), q.as_str())))
            },
        }
    }

    /// Parse if present and well-formed, otherwise `None`.
    pub fn read_parsed_opt<T: SysfsNumber>(&self, rel: &str) -> (r: Option<T>)
        ensures
            r == read_parsed_opt_spec::<T>(self@, rel@),
    {
        match self.read_parsed(rel) {
            Ok(x) => Some(x),
            Err(_) => None,
        }
    }

    /// Write a value to a sysfs file. A path that does not exist is
    /// [`HwError::NotSupported`]; a file whose opening fails reports that
    /// failure, classified as [`HwError::from_fault`] does.
    pub fn write(&mut self, rel: &str, value: &str) -> (r: Result<(), HwError>)
        ensures
            crate::error::rv(r) == old(self)@.write_result(rel@),
            final(self)@ == old(self)@.after_write(rel@, value@),
    {
        proof {
            use_type_invariant(&*self);
        }
        if !self.path_exists(rel) {
            return Err(HwError::NotSupported);
        }
        match self.find(rel) {
            Some(i) => {
                proof {
                    lemma_tree_at(self.nodes@, i as int);
                }
                let verdict: Result<(), HwError> = match &self.nodes[i].entry {
                    Entry::File(_) => Ok(()),
                    Entry::Fault(_) => Ok(()),
                    Entry::Locked(_, f) => Err(HwError::from_fault(clone_fault(f))),
                    Entry::Dir => Err(HwError::Io(IoFault::directory())),
                };
                if verdict.is_ok() {
                    self.put(rel, Entry::File(owned(value)));
                    proof {
                        use_type_invariant(&*self);
                    }
                    let mut writes: Vec<(String, String)> = Vec::new();
                    std::mem::swap(&mut writes, &mut self.writes);
                    writes.push((owned(rel), owned(value)));
                    self.writes = writes;
                    proof {
                        assert(self@.writes =~= old(self)@.writes.push((rel@, value@)));
                    }
                }
                verdict
            },
            None => Err(HwError::Io(IoFault::directory())),
        }
    }
}

/// A copy of a fault.
fn clone_fault(f: &IoFault) -> (r: IoFault)
    ensures
        r@ == f@,
{
    IoFault { kind: f.kind, raw_os_error: f.raw_os_error, message: owned(f.message.as_str()) }
}

/// The first entry of `es` (a listing of `dir`) whose `name` file reads
/// `wanted`, as a path.
pub open spec fn first_named(v: SysView, dir: Seq<char>, es: Seq<Seq<char>>, wanted: Seq<char>) -> Option<
    Seq<char>,
>
    decreases es.len(),
{
    if es.len() == 0 {
        None
    } else if v.read_opt(subpath(subpath(dir, es[0]), "name"@)) == Some(wanted) {
        Some(subpath(dir, es[0]))
    } else {
        first_named(v, dir, es.drop_first(), wanted)
    }
}

/// Does the `name` file of entry `e` of `dir` read `w` (trimmed)?
pub open spec fn named(v: SysView, dir: Seq<char>, e: Seq<char>, w: Seq<char>) -> bool {
    v.read_opt(subpath(subpath(dir, e), "name"@)) == Some(w)
}

/// `first_named` over a sorted list picks the entry with the smallest name
/// among those whose `name` file reads `w`, and none exactly when there is
/// no such entry.
pub proof fn lemma_first_named_smallest(v: SysView, dir: Seq<char>, es: Seq<Seq<char>>, w: Seq<char>)
    requires
        sorted_strict(es),
    ensures
        first_named(v, dir, es, w) matches Some(d) ==> exists|e: Seq<char>|
            #[trigger] es.contains(e) && d == subpath(dir, e) && named(v, dir, e, w) && forall|e2: Seq<char>|
                es.contains(e2) && #[trigger] named(v, dir, e2, w) ==> e2 == e || seq_lt(e, e2),
        first_named(v, dir, es, w) is None <==> forall|e: Seq<char>| #[trigger] es.contains(e) ==> !named(v, dir, e, w),
    decreases es.len(),
{
    if es.len() > 0 {
        let t = es.drop_first();
        assert forall|a: int, b: int| 0 <= a < b < t.len() implies seq_lt(#[trigger] t[a], #[trigger] t[b]) by {
            assert(t[a] == es[a + 1] && t[b] == es[b + 1]);
        }
        lemma_first_named_smallest(v, dir, t, w);
        assert forall|x: Seq<char>| #[trigger] es.contains(x) <==> x == es[0] || t.contains(x) by {
            if es.contains(x) {
                let k = choose|k: int| 0 <= k < es.len() && es[k] == x;
                if k > 0 {
                    assert(t[k - 1] == x);
                }
            }
            if t.contains(x) {
                let k = choose|k: int| 0 <= k < t.len() && t[k] == x;
                assert(es[k + 1] == x);
            }
            if x == es[0] {
                assert(es.contains(es[0]));
            }
        }
        assert forall|x: Seq<char>| #[trigger] t.contains(x) implies seq_lt(es[0], x) by {
            let k = choose|k: int| 0 <= k < t.len() && t[k] == x;
            assert(es[k + 1] == x);
        }
        if named(v, dir, es[0], w) {
            let e = es[0];
            assert(es.contains(e));
            assert(first_named(v, dir, es, w) == Some(subpath(dir, e)));
            assert forall|e2: Seq<char>| es.contains(e2) && #[trigger] named(v, dir, e2, w) implies e2 == e || seq_lt(
                e,
                e2,
            ) by {
                if e2 != e {
                    assert(t.contains(e2));
                }
            }
        } else {
            assert(first_named(v, dir, es, w) == first_named(v, dir, t, w));
            if first_named(v, dir, t, w) is Some {
                let d = first_named(v, dir, t, w)->Some_0;
                let e = choose|e: Seq<char>|
                    #[trigger] t.contains(e) && d == subpath(dir, e) && named(v, dir, e, w) && forall|e2: Seq<char>|
                        t.contains(e2) && #[trigger] named(v, dir, e2, w) ==> e2 == e || seq_lt(e, e2);
                assert(es.contains(e));
                assert forall|e2: Seq<char>| es.contains(e2) && #[trigger] named(v, dir, e2, w) implies e2 == e
                    || seq_lt(e, e2) by {
                    assert(t.contains(e2));
                }
            } else {
                assert forall|e: Seq<char>| #[trigger] es.contains(e) implies !named(v, dir, e, w) by {
                    if e != es[0] {
                        assert(t.contains(e));
                    }
                }
            }
        }
    }
}

/// Scan the entries of `dir` for the first whose `name` file reads `wanted`.
pub fn find_named(root: &SysRoot, dir: &str, wanted: &str) -> (r: Option<String>)
    ensures
        root@.is_listing(dir@, root@.listing(dir@)),
        match r {
            Some(p) => first_named(root@, dir@, root@.listing(dir@), wanted@) == Some(p@),
            None => first_named(root@, dir@, root@.listing(dir@), wanted@) is None,
        },
{
    let entries = list_dir_of(root, dir);
    let ghost es = root@.listing(dir@);
    let mut i: usize = 0;
    assert(es.skip(0) =~= es);
    while i < entries.len()
        invariant
            i <= entries@.len() == es.len(),
            es == root@.listing(dir@),
            root@.is_listing(dir@, es),
            forall|k: int| 0 <= k < entries@.len() ==> #[trigger] entries@[k]@ == es[k],
            first_named(root@, dir@, es, wanted@) == first_named(root@, dir@, es.skip(i as int), wanted@),
        decreases entries.len() - i,
    {
        let rel = join(dir, entries[i].as_str());
        let name_file = join(rel.as_str(), "name");
        proof {
            assert(entries@[i as int]@ == es[i as int]);
            assert(es.skip(i as int)[0] == es[i as int]);
            assert(es.skip(i as int).drop_first() =~= es.skip(i + 1));
        }
        match root.read_opt(name_file.as_str()) {
            Some(n) => {
                if str_eq(n.as_str(), wanted) {
                    proof {
                        let t = es.skip(i as int);
                        assert(rel@ == subpath(dir@, t[0]));
                        assert(name_file@ == subpath(subpath(dir@, t[0]), "name"@));
                        assert(first_named(root@, dir@, t, wanted@) == Some(subpath(dir@, t[0])));
                    }
                    return Some(rel);
                }
            },
            None => {},
        }
        i = i + 1;
    }
    None
}

/// `root.list_dir(dir)`.
pub fn list_dir_of(root: &SysRoot, dir: &str) -> (r: Vec<String>)
    ensures
        root@.is_listing(dir@, root@.listing(dir@)),
        strings(r@) == root@.listing(dir@),
        r@.len() == root@.listing(dir@).len(),
        forall|i: int| 0 <= i < r@.len() ==> #[trigger] r@[i]@ == root@.listing(dir@)[i],
{
    let r = root.list_dir(dir);
    assert forall|i: int| 0 <= i < r@.len() implies #[trigger] r@[i]@ == root@.listing(dir@)[i] by {
        assert(strings(r@)[i] == r@[i]@);
    }
    r
}

/// Find the hwmon directory whose `name` file equals `wanted`: of the
/// entries of `sys/class/hwmon` whose trimmed `name` reads `wanted`, the one
/// with the smallest name, and none exactly when no entry's does.
///
/// Returns a path relative to the [`SysRoot`], e.g. `sys/class/hwmon/hwmon3`.
pub fn find_hwmon(root: &SysRoot, wanted: &str) -> (r: Option<String>)
    ensures
        r matches Some(p) ==> exists|e: Seq<char>|
            #[trigger] root@.children("sys/class/hwmon"@).contains(e) && p@ == subpath("sys/class/hwmon"@, e)
                && named(root@, "sys/class/hwmon"@, e, wanted@) && forall|e2: Seq<char>|
                root@.children("sys/class/hwmon"@).contains(e2) && #[trigger] named(
                    root@,
                    "sys/class/hwmon"@,
                    e2,
                    wanted@,
                ) ==> e2 == e || seq_lt(e, e2),
        r is None <==> forall|e: Seq<char>|
            #[trigger] root@.children("sys/class/hwmon"@).contains(e) ==> !named(
                root@,
                "sys/class/hwmon"@,
                e,
                wanted@,
            ),
        match r {
            Some(p) => first_named(
                root@,
                "sys/class/hwmon"@,
                root@.listing("sys/class/hwmon"@),
                wanted@,
            ) == Some(p@),
            None => first_named(
                root@,
                "sys/class/hwmon"@,
                root@.listing("sys/class/hwmon"@),
                wanted@,
            ) is None,
        },
{
    let r = find_named(root, "sys/class/hwmon", wanted);
    proof {
        let h = "sys/class/hwmon"@;
        let es = root@.listing(h);
        lemma_first_named_smallest(root@, h, es, wanted@);
        assert forall|x: Seq<char>| #[trigger] es.contains(x) <==> root@.children(h).contains(x) by {
            assert(es.to_set().contains(x) <==> es.contains(x));
        }
    }
    r
}

} // verus!
