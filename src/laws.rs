//! Laws that relate the lexical operations to one another.

use vstd::prelude::*;
use crate::model::{
    is_valid_component, is_valid_suffix, join_comps, keep_component, lemma_last_dot_bounds,
    last_dot, parse_model, scan, stem_of, PathError, PathModel, SEPARATOR,
};

verus! {

/// Putting a path's own suffix back with `with_suffix` succeeds and leaves the
/// stem unchanged (in fact it gives the same path).
pub proof fn lemma_with_own_suffix_keeps_stem(p: PathModel)
    requires
        p.wf(),
        p.suffix() is Some,
    ensures
        p.with_suffix(p.suffix()->0) is Ok,
        p.with_suffix(p.suffix()->0)->Ok_0.stem() == p.stem(),
        p.with_suffix(p.suffix()->0) == Ok::<PathModel, PathError>(p),
{
    let n = p.comps.last();
    let d = last_dot(n);
    lemma_last_dot_bounds(n);
    assert(is_valid_component(p.comps[p.comps.len() - 1]));
    let s = n.skip(d);
    assert(stem_of(n) + s =~= n);
    assert(s[0] == '.');
    assert(!s.contains(SEPARATOR)) by {
        if s.contains(SEPARATOR) {
            let k = choose|k: int| 0 <= k < s.len() && s[k] == SEPARATOR;
            assert(n[d + k] == SEPARATOR);
        }
    }
    assert(is_valid_suffix(s));
    assert(p.comps.update(p.comps.len() - 1, n) =~= p.comps);
}

/// Joining a relative path `q` onto `p`, then taking the result relative to `p`,
/// gives `q` back.
pub proof fn lemma_join_then_relative_to(p: PathModel, q: PathModel)
    requires
        !q.absolute,
    ensures
        p.join(q).relative_to(p) == Ok::<PathModel, PathError>(q),
{
    let j = p.join(q);
    assert(j.comps.take(p.comps.len() as int) =~= p.comps);
    assert(j.comps.skip(p.comps.len() as int) =~= q.comps);
}

/// The last dot is the one after which no dot follows.
proof fn lemma_last_dot_at(x: Seq<char>, k: int)
    requires
        0 <= k < x.len(),
        x[k] == '.',
        forall|j: int| k < j < x.len() ==> x[j] != '.',
    ensures
        last_dot(x) == k,
    decreases x.len(),
{
    if x.last() != '.' {
        assert(x.drop_last()[k] == '.');
        lemma_last_dot_at(x.drop_last(), k);
    }
}

/// Giving a path a suffix made of one dot and text without dot or separator
/// succeeds; the new path has exactly that suffix and the same stem.
pub proof fn lemma_with_suffix_then_suffix(p: PathModel, s: Seq<char>)
    requires
        p.wf(),
        p.comps.len() > 0,
        s.len() >= 2,
        s[0] == '.',
        forall|j: int| 0 < j < s.len() ==> s[j] != '.' && s[j] != SEPARATOR,
    ensures
        p.with_suffix(s) is Ok,
        p.with_suffix(s)->Ok_0.suffix() == Some(s),
        p.with_suffix(s)->Ok_0.stem() == p.stem(),
{
    let n = p.comps.last();
    assert(is_valid_component(p.comps[p.comps.len() - 1]));
    lemma_last_dot_bounds(n);
    let st = stem_of(n);
    let m = st + s;
    assert(st.len() > 0);
    assert(!st.contains(SEPARATOR)) by {
        if st.contains(SEPARATOR) {
            let k = choose|k: int| 0 <= k < st.len() && st[k] == SEPARATOR;
            assert(n[k] == SEPARATOR);
        }
    }
    assert(!s.contains(SEPARATOR)) by {
        if s.contains(SEPARATOR) {
            let k = choose|k: int| 0 <= k < s.len() && s[k] == SEPARATOR;
            assert(k > 0);
        }
    }
    assert(is_valid_suffix(s));
    assert(!m.contains(SEPARATOR)) by {
        if m.contains(SEPARATOR) {
            let k = choose|k: int| 0 <= k < m.len() && m[k] == SEPARATOR;
            if k < st.len() {
                assert(st[k] == SEPARATOR);
            } else {
                assert(s[k - st.len()] == SEPARATOR);
            }
        }
    }
    assert(m != seq!['.']) by {
        if m == seq!['.'] {
            assert(m.len() == 1);
        }
    }
    assert(m[st.len() as int] == '.');
    assert forall|j: int| st.len() < j < m.len() implies m[j] != '.' by {
        assert(m[j] == s[j - st.len()]);
    }
    lemma_last_dot_at(m, st.len() as int);
    let q = p.with_suffix(s)->Ok_0;
    assert(q.comps.last() == m);
    assert(m.take(st.len() as int) =~= st);
    assert(m.skip(st.len() as int) =~= s);
}

/// Whether `a` is a leading part of `b`.
pub open spec fn is_prefix(a: Seq<Seq<char>>, b: Seq<Seq<char>>) -> bool {
    a.len() <= b.len() && b.take(a.len() as int) == a
}

/// Taking a path relative to a base succeeds exactly when the base's parts lead
/// the path's parts, and then yields the parts that follow them; every failure
/// is `NotAPrefix`.
pub proof fn lemma_relative_to_parts(p: PathModel, base: PathModel)
    requires
        p.wf(),
        base.wf(),
    ensures
        p.relative_to(base) is Ok <==> is_prefix(base.parts(), p.parts()),
        p.relative_to(base) is Err ==> p.relative_to(base) == Err::<PathModel, PathError>(PathError::NotAPrefix),
        p.relative_to(base) is Ok ==> p.relative_to(base)->Ok_0.parts() == p.parts().skip(base.parts().len() as int),
{
    let root = seq![SEPARATOR];
    let k = base.comps.len() as int;
    if !base.absolute && k == 0 {
        assert(base.parts() =~= Seq::<Seq<char>>::empty());
        assert(p.parts().take(0) =~= Seq::<Seq<char>>::empty());
        assert(p.parts().skip(0) =~= p.parts());
    } else if base.absolute && p.absolute {
        assert(base.parts() == seq![root] + base.comps);
        assert(p.parts() == seq![root] + p.comps);
        if k <= p.comps.len() {
            assert(p.parts().take(k + 1) =~= seq![root] + p.comps.take(k));
            if p.parts().take(k + 1) == base.parts() {
                assert(p.comps.take(k) =~= base.parts().skip(1));
                assert(base.parts().skip(1) =~= base.comps);
            }
            assert(p.parts().skip(k + 1) =~= p.comps.skip(k));
        }
    } else if !base.absolute && !p.absolute {
    } else {
        // One is absolute and the other a non-empty relative path: their first parts differ.
        let (a, r) = if p.absolute { (p, base) } else { (base, p) };
        if r.comps.len() > 0 {
            assert(is_valid_component(r.comps[0]));
            assert(r.parts()[0] == r.comps[0]);
            assert(a.parts()[0] == root);
            assert(r.comps[0] != root) by {
                if r.comps[0] == root {
                    assert(r.comps[0][0] == SEPARATOR);
                }
            }
            if is_prefix(base.parts(), p.parts()) {
                assert(p.parts().take(base.parts().len() as int)[0] == p.parts()[0]);
            }
        } else {
            assert(r.parts().len() == 0);
            assert(a.parts().len() >= 1);
        }
    }
}

/// Reading characters without a separator only extends the component under construction.
proof fn lemma_scan_plain(s: Seq<char>, t: Seq<char>)
    requires
        !t.contains(SEPARATOR),
    ensures
        scan(s + t) == (scan(s).0, scan(s).1 + t),
    decreases t.len(),
{
    if t.len() == 0 {
        assert(s + t =~= s);
        assert(scan(s).1 + t =~= scan(s).1);
    } else {
        let u = t.drop_last();
        assert(!u.contains(SEPARATOR)) by {
            if u.contains(SEPARATOR) {
                let k = choose|k: int| 0 <= k < u.len() && u[k] == SEPARATOR;
                assert(t[k] == SEPARATOR);
            }
        }
        lemma_scan_plain(s, u);
        assert((s + t).drop_last() =~= s + u);
        assert(t.last() != SEPARATOR) by {
            assert(t[t.len() - 1] == t.last());
        }
        assert(scan(s).1 + u.push(t.last()) =~= scan(s).1 + t);
        assert((scan(s).1 + u).push(t.last()) =~= scan(s).1 + t);
    }
}

/// Reading the text of valid components after a completed prefix yields all but
/// the last as completed components, and the last under construction.
proof fn lemma_scan_join(s: Seq<char>, comps: Seq<Seq<char>>)
    requires
        scan(s).1.len() == 0,
        comps.len() > 0,
        forall|i: int| 0 <= i < comps.len() ==> is_valid_component(#[trigger] comps[i]),
    ensures
        scan(s + join_comps(comps)) == (scan(s).0 + comps.drop_last(), comps.last()),
    decreases comps.len(),
{
    if comps.len() == 1 {
        assert(is_valid_component(comps[0]));
        lemma_scan_plain(s, comps[0]);
        assert(scan(s).1 + comps[0] =~= comps[0]);
        assert(scan(s).0 + comps.drop_last() =~= scan(s).0);
    } else {
        let d = comps.drop_last();
        let head = s + join_comps(d);
        lemma_scan_join(s, d);
        assert(is_valid_component(d.last())) by {
            assert(d.last() == comps[comps.len() - 2]);
        }
        let slash = head + seq![SEPARATOR];
        assert(slash.drop_last() =~= head);
        assert(scan(slash) == (keep_component(scan(head).0, scan(head).1), Seq::<char>::empty()));
        assert(scan(slash).0 =~= scan(s).0 + d);
        assert(is_valid_component(comps.last()));
        lemma_scan_plain(slash, comps.last());
        assert(s + join_comps(comps) =~= slash + comps.last());
        assert(Seq::<char>::empty() + comps.last() =~= comps.last());
        assert(d =~= comps.drop_last());
    }
}

/// The text of a valid relative path does not start with a separator.
proof fn lemma_join_first(comps: Seq<Seq<char>>)
    requires
        comps.len() > 0,
        forall|i: int| 0 <= i < comps.len() ==> is_valid_component(#[trigger] comps[i]),
    ensures
        join_comps(comps).len() > 0,
        join_comps(comps)[0] == comps[0][0],
    decreases comps.len(),
{
    assert(is_valid_component(comps[0]));
    if comps.len() > 1 {
        let d = comps.drop_last();
        assert(d[0] == comps[0]);
        lemma_join_first(d);
    }
}

/// Parsing the text of a path gives the path back.
pub proof fn lemma_parse_render(m: PathModel)
    requires
        m.wf(),
    ensures
        parse_model(m.render()) == m,
{
    let e = Seq::<char>::empty();
    assert(scan(e) == (Seq::<Seq<char>>::empty(), e));
    if m.absolute {
        let r = seq![SEPARATOR];
        assert(r.drop_last() =~= e);
        assert(scan(r) == (Seq::<Seq<char>>::empty(), e));
        if m.comps.len() == 0 {
            assert(m.render() =~= r);
            assert(m.comps =~= Seq::<Seq<char>>::empty());
        } else {
            lemma_scan_join(r, m.comps);
            let c = Seq::<Seq<char>>::empty() + m.comps.drop_last();
            assert(keep_component(c, m.comps.last()) =~= m.comps) by {
                assert(is_valid_component(m.comps[m.comps.len() - 1]));
            }
        }
    } else if m.comps.len() == 0 {
        let r = seq!['.'];
        assert(r.drop_last() =~= e);
        assert(e.push('.') =~= r);
        assert(m.render() == r);
        assert(scan(r) == (Seq::<Seq<char>>::empty(), r));
        assert(m.comps =~= Seq::<Seq<char>>::empty());
    } else {
        lemma_join_first(m.comps);
        assert(is_valid_component(m.comps[0]));
        assert(m.comps[0][0] != SEPARATOR) by {
            if m.comps[0][0] == SEPARATOR {
                assert(m.comps[0].contains(SEPARATOR));
            }
        }
        lemma_scan_join(e, m.comps);
        assert(e + join_comps(m.comps) =~= join_comps(m.comps));
        let c = Seq::<Seq<char>>::empty() + m.comps.drop_last();
        assert(keep_component(c, m.comps.last()) =~= m.comps) by {
            assert(is_valid_component(m.comps[m.comps.len() - 1]));
        }
    }
}

} // verus!
