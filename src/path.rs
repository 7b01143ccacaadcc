//! The lexical path value.

use vstd::prelude::*;
use crate::model::{
    has_suffix, is_valid_component, is_valid_suffix, join_comps, keep_component, last_dot,
    lemma_last_dot_bounds, parse_model, scan, stem_of, suffix_of, suffixes_of, PathError,
    PathModel, SEPARATOR,
};
use crate::text::{append_char, append_text, chars_of, string_of};
use crate::uri::{file_url, file_url_of};

verus! {

/// The characters of each string.
pub open spec fn texts(v: Seq<String>) -> Seq<Seq<char>> {
    v.map_values(|c: String| c@)
}

/// A path that is only ever taken apart and put together, never looked up.
pub struct PurePath {
    absolute: bool,
    comps: Vec<String>,
}

impl View for PurePath {
    type V = PathModel;

    closed spec fn view(&self) -> PathModel {
        PathModel { absolute: self.absolute, comps: texts(self.comps@) }
    }
}

/// Appends `cs[start..end]` as a component, unless it is empty or `.`.
fn keep_chars(comps: &mut Vec<String>, cs: &Vec<char>, start: usize, end: usize)
    requires
        start <= end <= cs.len(),
        forall|j: int| start <= j < end ==> cs@[j] != SEPARATOR,
        forall|j: int| 0 <= j < old(comps)@.len() ==> is_valid_component(#[trigger] texts(old(comps)@)[j]),
    ensures
        texts(final(comps)@) == keep_component(texts(old(comps)@), cs@.subrange(start as int, end as int)),
        forall|j: int| 0 <= j < final(comps)@.len() ==> is_valid_component(#[trigger] texts(final(comps)@)[j]),
{
    let ghost cur = cs@.subrange(start as int, end as int);
    proof {
        if cur == seq!['.'] {
            assert(cur.len() == 1 && cur[0] == '.');
        }
    }
    if end > start && !(end == start + 1 && cs[start] == '.') {
        let c = string_of(cs, start, end);
        assert(!cur.contains(SEPARATOR)) by {
            if cur.contains(SEPARATOR) {
                let k = choose|k: int| 0 <= k < cur.len() && cur[k] == SEPARATOR;
                assert(cs@[start + k] == SEPARATOR);
            }
        }
        comps.push(c);
        assert(texts(comps@) =~= texts(old(comps)@).push(c@));
    } else {
        assert(cur =~= seq!['.'] || cur.len() == 0);
    }
}

/// The index of the last dot among the first `len` characters.
fn last_dot_in(cs: &Vec<char>, len: usize) -> (r: Option<usize>)
    requires
        len <= cs.len(),
    ensures
        match r {
            Some(d) => d == last_dot(cs@.take(len as int)),
            None => last_dot(cs@.take(len as int)) == -1,
        },
{
    let mut i: usize = len;
    while i > 0
        invariant
            i <= len <= cs.len(),
            last_dot(cs@.take(len as int)) == last_dot(cs@.take(i as int)),
        decreases i,
    {
        assert(cs@.take(i as int).drop_last() =~= cs@.take(i - 1));
        if cs[i - 1] == '.' {
            return Some(i - 1);
        }
        i = i - 1;
    }
    None
}

/// The suffixes of the name `cs[..len]`, in order.
fn suffixes_in(cs: &Vec<char>, len: usize) -> (r: Vec<String>)
    requires
        len <= cs.len(),
    ensures
        texts(r@) == suffixes_of(cs@.take(len as int)),
    decreases len,
{
    let ghost n = cs@.take(len as int);
    proof {
        lemma_last_dot_bounds(n);
    }
    match last_dot_in(cs, len) {
        Some(d) => {
            if d > 0 && d + 1 < len {
                assert(n.take(d as int) =~= cs@.take(d as int));
                let mut v = suffixes_in(cs, d);
                let s = string_of(cs, d, len);
                assert(s@ =~= n.skip(d as int));
                v.push(s);
                assert(texts(v@) =~= texts(v@).drop_last().push(s@));
                v
            } else {
                Vec::new()
            }
        },
        None => Vec::new(),
    }
}

/// The text of an optional string.
pub open spec fn opt_text(o: Option<String>) -> Option<Seq<char>> {
    match o {
        Some(s) => Some(s@),
        None => None,
    }
}

/// The value of an optional path.
pub open spec fn opt_path(o: Option<PurePath>) -> Option<PathModel> {
    match o {
        Some(p) => Some(p@),
        None => None,
    }
}

/// The value of a path or the error.
pub open spec fn res_path(r: Result<PurePath, PathError>) -> Result<PathModel, PathError> {
    match r {
        Ok(p) => Ok(p@),
        Err(e) => Err(e),
    }
}

/// The value of each path.
pub open spec fn paths(v: Seq<PurePath>) -> Seq<PathModel> {
    v.map_values(|p: PurePath| p@)
}

/// Copies of `v[from..to]`.
fn copy_range(v: &Vec<String>, from: usize, to: usize) -> (r: Vec<String>)
    requires
        from <= to <= v.len(),
    ensures
        texts(r@) == texts(v@).subrange(from as int, to as int),
{
    let mut r: Vec<String> = Vec::new();
    let mut i: usize = from;
    while i < to
        invariant
            from <= i <= to <= v.len(),
            texts(r@) == texts(v@).subrange(from as int, i as int),
        decreases to - i,
    {
        let c = v[i].clone();
        assert(c@ == texts(v@)[i as int]);
        let ghost before = r@;
        r.push(c);
        assert(texts(r@) =~= texts(before).push(c@));
        assert(texts(v@).subrange(from as int, i + 1) =~= texts(v@).subrange(from as int, i as int).push(c@));
        i = i + 1;
    }
    r
}

/// Whether `cs` is a valid component.
fn component_ok(cs: &Vec<char>) -> (r: bool)
    ensures
        r == is_valid_component(cs@),
{
    if cs.len() == 0 {
        return false;
    }
    if cs.len() == 1 && cs[0] == '.' {
        assert(cs@ =~= seq!['.']);
        return false;
    }
    proof {
        if cs@ == seq!['.'] {
            assert(cs@[0] == '.');
        }
    }
    assert(cs@.skip(0) =~= cs@);
    no_separator(cs, 0)
}

/// Whether no character of `cs[from..]` is a separator.
fn no_separator(cs: &Vec<char>, from: usize) -> (r: bool)
    requires
        from <= cs.len(),
    ensures
        r == !cs@.skip(from as int).contains(SEPARATOR),
{
    let mut i: usize = from;
    while i < cs.len()
        invariant
            from <= i <= cs.len(),
            forall|j: int| from <= j < i ==> cs@[j] != SEPARATOR,
        decreases cs.len() - i,
    {
        if cs[i] == SEPARATOR {
            assert(cs@.skip(from as int)[i - from] == SEPARATOR);
            return false;
        }
        i = i + 1;
    }
    proof {
        if cs@.skip(from as int).contains(SEPARATOR) {
            let k = choose|k: int| 0 <= k < cs@.skip(from as int).len() && cs@.skip(from as int)[k] == SEPARATOR;
            assert(cs@[from + k] == SEPARATOR);
        }
    }
    true
}

/// Whether `cs` may serve as a replacement suffix.
fn suffix_ok(cs: &Vec<char>) -> (r: bool)
    ensures
        r == is_valid_suffix(cs@),
{
    if cs.len() == 0 {
        return true;
    }
    if cs.len() < 2 || cs[0] != '.' {
        return false;
    }
    assert(cs@.skip(0) =~= cs@);
    no_separator(cs, 0)
}

/// The stem and the final suffix of the name `n`.
fn split_name(n: &String) -> (r: (String, Option<String>))
    ensures
        r.0@ == stem_of(n@),
        opt_text(r.1) == suffix_of(n@),
{
    let cs = chars_of(n.as_str());
    proof {
        lemma_last_dot_bounds(cs@);
    }
    assert(cs@.take(cs.len() as int) =~= cs@);
    match last_dot_in(&cs, cs.len()) {
        Some(d) => {
            if d > 0 && d + 1 < cs.len() {
                let stem = string_of(&cs, 0, d);
                let suffix = string_of(&cs, d, cs.len());
                assert(stem@ =~= cs@.take(d as int));
                assert(suffix@ =~= cs@.skip(d as int));
                (stem, Some(suffix))
            } else {
                (n.clone(), None)
            }
        },
        None => (n.clone(), None),
    }
}

impl PurePath {
    #[verifier::type_invariant]
    closed spec fn inv(self) -> bool {
        self@.wf()
    }

    /// The empty relative path.
    pub fn new() -> (r: PurePath)
        ensures
            r@ == (PathModel { absolute: false, comps: Seq::empty() }),
    {
        let r = PurePath { absolute: false, comps: Vec::new() };
        assert(r@.comps =~= Seq::empty());
        r
    }

    /// The path that the text `s` denotes.
    pub fn parse(s: &str) -> (r: PurePath)
        ensures
            r@ == parse_model(s@),
    {
        let cs = chars_of(s);
        let mut comps: Vec<String> = Vec::new();
        let mut start: usize = 0;
        let mut i: usize = 0;
        while i < cs.len()
            invariant
                cs@ == s@,
                start <= i <= cs.len(),
                texts(comps@) == scan(cs@.take(i as int)).0,
                cs@.subrange(start as int, i as int) == scan(cs@.take(i as int)).1,
                forall|j: int| start <= j < i ==> cs@[j] != SEPARATOR,
                forall|j: int| 0 <= j < comps@.len() ==> is_valid_component(#[trigger] texts(comps@)[j]),
            decreases cs.len() - i,
        {
            let ghost prev = scan(cs@.take(i as int));
            assert(cs@.take(i + 1).drop_last() =~= cs@.take(i as int));
            if cs[i] == SEPARATOR {
                keep_chars(&mut comps, &cs, start, i);
                start = i + 1;
                assert(cs@.subrange(start as int, start as int) =~= Seq::<char>::empty());
            } else {
                assert(cs@.subrange(start as int, i + 1) =~= prev.1.push(cs@[i as int]));
            }
            i = i + 1;
        }
        assert(cs@.take(i as int) =~= cs@);
        keep_chars(&mut comps, &cs, start, i);
        let absolute = cs.len() > 0 && cs[0] == SEPARATOR;
        assert(texts(comps@).len() == comps@.len());
        let r = PurePath { absolute, comps };
        assert(r@.wf());
        r
    }

    /// Makes known to the caller's proofs that the path is well formed, so that
    /// the laws over the model apply to it; does nothing at run time.
    pub fn view_is_wf(&self)
        ensures
            self@.wf(),
    {
        proof {
            use_type_invariant(self);
        }
    }

    /// Whether the path starts at the root.
    pub fn is_absolute(&self) -> (r: bool)
        ensures
            r == self@.absolute,
    {
        self.absolute
    }

    /// The text of the path, with `/` between components.
    pub fn as_posix(&self) -> (r: String)
        ensures
            r@ == self@.render(),
    {
        let mut out = String::new();
        if self.absolute {
            append_char(&mut out, SEPARATOR);
        }
        let ghost head = out@;
        let mut i: usize = 0;
        while i < self.comps.len()
            invariant
                i <= self.comps.len(),
                out@ == head + join_comps(texts(self.comps@).take(i as int)),
            decreases self.comps.len() - i,
        {
            let ghost t = texts(self.comps@);
            assert(t.take(i + 1).drop_last() =~= t.take(i as int));
            if i > 0 {
                append_char(&mut out, SEPARATOR);
            } else {
                assert(t.take(0) =~= Seq::<Seq<char>>::empty());
            }
            append_text(&mut out, self.comps[i].as_str());
            i = i + 1;
            assert(out@ =~= head + join_comps(t.take(i as int)));
        }
        assert(texts(self.comps@).take(i as int) =~= texts(self.comps@));
        if !self.absolute && self.comps.len() == 0 {
            append_char(&mut out, '.');
            assert(out@ =~= seq!['.']);
        }
        out
    }

    /// The final component.
    pub fn name(&self) -> (r: Option<String>)
        ensures
            opt_text(r) == self@.name(),
    {
        if self.comps.len() == 0 {
            None
        } else {
            Some(self.comps[self.comps.len() - 1].clone())
        }
    }

    /// The final component without its final suffix.
    pub fn stem(&self) -> (r: Option<String>)
        ensures
            opt_text(r) == self@.stem(),
    {
        if self.comps.len() == 0 {
            None
        } else {
            Some(split_name(&self.comps[self.comps.len() - 1]).0)
        }
    }

    /// The final suffix of the final component, dot included.
    pub fn suffix(&self) -> (r: Option<String>)
        ensures
            opt_text(r) == self@.suffix(),
    {
        if self.comps.len() == 0 {
            None
        } else {
            split_name(&self.comps[self.comps.len() - 1]).1
        }
    }

    /// Every suffix of the final component, in order.
    pub fn suffixes(&self) -> (r: Vec<String>)
        ensures
            texts(r@) == self@.suffixes(),
    {
        if self.comps.len() == 0 {
            Vec::new()
        } else {
            let cs = chars_of(self.comps[self.comps.len() - 1].as_str());
            assert(cs@.take(cs.len() as int) =~= cs@);
            suffixes_in(&cs, cs.len())
        }
    }

    /// The path without its final component.
    pub fn parent(&self) -> (r: Option<PurePath>)
        ensures
            opt_path(r) == self@.parent(),
    {
        proof {
            use_type_invariant(self);
        }
        if self.comps.len() == 0 {
            None
        } else {
            let comps = copy_range(&self.comps, 0, self.comps.len() - 1);
            assert(texts(self.comps@).subrange(0, self.comps.len() - 1) =~= texts(self.comps@).drop_last());
            Some(PurePath { absolute: self.absolute, comps })
        }
    }

    /// The ancestors of the path, from its parent up to the furthest.
    pub fn parents(&self) -> (r: Vec<PurePath>)
        ensures
            paths(r@) == self@.parents(),
    {
        proof {
            use_type_invariant(self);
        }
        let n = self.comps.len();
        let mut r: Vec<PurePath> = Vec::new();
        let mut k: usize = n;
        while k > 0
            invariant
                k <= n == self.comps.len(),
                self@.wf(),
                self@.comps == texts(self.comps@),
                paths(r@) == self@.parents().take(n - k),
            decreases k,
        {
            k = k - 1;
            let comps = copy_range(&self.comps, 0, k);
            assert(texts(self.comps@).subrange(0, k as int) =~= self@.comps.take(k as int));
            let p = PurePath { absolute: self.absolute, comps };
            let ghost before = r@;
            r.push(p);
            assert(paths(r@) =~= paths(before).push(p@));
            assert(self@.parents().take(n - k) =~= self@.parents().take(n - k - 1).push(p@));
        }
        assert(self@.parents().take(n as int) =~= self@.parents());
        r
    }

    /// The root marker, if any, followed by every component.
    pub fn parts(&self) -> (r: Vec<String>)
        ensures
            texts(r@) == self@.parts(),
    {
        let mut r: Vec<String> = Vec::new();
        if self.absolute {
            let mut root = String::new();
            append_char(&mut root, SEPARATOR);
            r.push(root);
        }
        let ghost head = texts(r@);
        let mut i: usize = 0;
        while i < self.comps.len()
            invariant
                i <= self.comps.len(),
                texts(r@) == head + texts(self.comps@).take(i as int),
            decreases self.comps.len() - i,
        {
            let c = self.comps[i].clone();
            let ghost before = r@;
            r.push(c);
            assert(texts(r@) =~= texts(before).push(c@));
            i = i + 1;
            assert(head + texts(self.comps@).take(i as int) =~= head + texts(self.comps@).take(i - 1) + seq![c@]);
        }
        assert(texts(self.comps@).take(i as int) =~= texts(self.comps@));
        assert(head =~= if self.absolute { seq![seq![SEPARATOR]] } else { Seq::empty() });
        r
    }

    /// `other` appended to this path; an absolute `other` replaces it.
    pub fn join(&self, other: &PurePath) -> (r: PurePath)
        ensures
            r@ == self@.join(other@),
    {
        proof {
            use_type_invariant(self);
            use_type_invariant(other);
        }
        let mut comps = if other.absolute {
            let v: Vec<String> = Vec::new();
            assert(texts(v@) =~= Seq::<Seq<char>>::empty());
            v
        } else {
            copy_range(&self.comps, 0, self.comps.len())
        };
        let ghost head = texts(comps@);
        let mut i: usize = 0;
        while i < other.comps.len()
            invariant
                i <= other.comps.len(),
                texts(comps@) == head + texts(other.comps@).take(i as int),
            decreases other.comps.len() - i,
        {
            let c = other.comps[i].clone();
            let ghost before = comps@;
            comps.push(c);
            assert(texts(comps@) =~= texts(before).push(c@));
            i = i + 1;
            assert(head + texts(other.comps@).take(i as int) =~= head + texts(other.comps@).take(i - 1) + seq![c@]);
        }
        assert(texts(other.comps@).take(i as int) =~= texts(other.comps@));
        assert(texts(self.comps@).subrange(0, self.comps.len() as int) =~= texts(self.comps@));
        assert(texts(comps@) =~= self@.join(other@).comps);
        assert(self@.join(other@).wf()) by {
            assert forall|j: int| 0 <= j < self@.join(other@).comps.len() implies is_valid_component(
                #[trigger] self@.join(other@).comps[j],
            ) by {
                if !other.absolute && j >= self@.comps.len() {
                    assert(self@.join(other@).comps[j] == other@.comps[j - self@.comps.len()]);
                }
            }
        }
        PurePath { absolute: self.absolute || other.absolute, comps }
    }

    /// The path with `base`'s components stripped from its front.
    pub fn relative_to(&self, base: &PurePath) -> (r: Result<PurePath, PathError>)
        ensures
            res_path(r) == self@.relative_to(base@),
    {
        proof {
            use_type_invariant(self);
        }
        let n = base.comps.len();
        if !base.absolute && n == 0 {
            return Ok(self.clone());
        }
        if base.absolute != self.absolute || n > self.comps.len() {
            return Err(PathError::NotAPrefix);
        }
        let mut i: usize = 0;
        while i < n
            invariant
                i <= n <= self.comps.len(),
                n == base.comps.len(),
                forall|j: int| 0 <= j < i ==> texts(self.comps@)[j] == texts(base.comps@)[j],
            decreases n - i,
        {
            if self.comps[i] != base.comps[i] {
                assert(self@.comps.take(n as int)[i as int] != base@.comps[i as int]);
                return Err(PathError::NotAPrefix);
            }
            i = i + 1;
        }
        assert(self@.comps.take(n as int) =~= base@.comps);
        let comps = copy_range(&self.comps, n, self.comps.len());
        assert(texts(self.comps@).subrange(n as int, self.comps.len() as int) =~= self@.comps.skip(n as int));
        Ok(PurePath { absolute: false, comps })
    }

    /// The path with its final component replaced by `n`.
    pub fn with_name(&self, n: &str) -> (r: Result<PurePath, PathError>)
        ensures
            res_path(r) == self@.with_name(n@),
    {
        proof {
            use_type_invariant(self);
        }
        if self.comps.len() == 0 {
            return Err(PathError::NoName);
        }
        let cs = chars_of(n);
        if !component_ok(&cs) {
            return Err(PathError::InvalidName);
        }
        let last = self.comps.len() - 1;
        let mut comps = copy_range(&self.comps, 0, last);
        let name = string_of(&cs, 0, cs.len());
        assert(name@ =~= n@);
        let ghost before = comps@;
        comps.push(name);
        assert(texts(comps@) =~= texts(before).push(name@));
        assert(texts(comps@) =~= self@.comps.update(last as int, n@));
        Ok(PurePath { absolute: self.absolute, comps })
    }

    /// The path with the final suffix of its name replaced by `s`, or `s` added
    /// when the name has none; an empty `s` removes the suffix.
    pub fn with_suffix(&self, s: &str) -> (r: Result<PurePath, PathError>)
        ensures
            res_path(r) == self@.with_suffix(s@),
    {
        if self.comps.len() == 0 {
            return Err(PathError::NoName);
        }
        let cs = chars_of(s);
        if !suffix_ok(&cs) {
            return Err(PathError::InvalidSuffix);
        }
        let mut name = split_name(&self.comps[self.comps.len() - 1]).0;
        append_text(&mut name, s);
        self.with_name(name.as_str())
    }

    /// The root marker of an absolute path, absent for a relative one.
    pub fn root(&self) -> (r: Option<String>)
        ensures
            opt_text(r) == (if self@.absolute { Some(seq![SEPARATOR]) } else { None::<Seq<char>> }),
    {
        if self.absolute {
            let mut r = String::new();
            append_char(&mut r, SEPARATOR);
            Some(r)
        } else {
            None
        }
    }

    /// The drive: POSIX paths have none.
    pub fn drive(&self) -> (r: Option<String>)
        ensures
            r is None,
    {
        None
    }

    /// The drive followed by the root, absent when the path has neither.
    pub fn anchor(&self) -> (r: Option<String>)
        ensures
            opt_text(r) == (if self@.absolute { Some(seq![SEPARATOR]) } else { None::<Seq<char>> }),
    {
        match self.drive() {
            Some(d) => Some(d),
            None => self.root(),
        }
    }

    /// The `file:` URL of an absolute path.
    pub fn as_uri(&self) -> (r: Result<String, PathError>)
        ensures
            self@.absolute ==> r is Ok && r->Ok_0@ == file_url_of(self@.render()),
            !self@.absolute ==> r == Err::<String, PathError>(PathError::NotAbsolute),
    {
        if !self.absolute {
            return Err(PathError::NotAbsolute);
        }
        let text = self.as_posix();
        match file_url(text.as_str()) {
            Some(u) => Ok(u),
            None => Err(PathError::NotAbsolute),
        }
    }

    /// A copy of the path.
    pub fn clone(&self) -> (r: PurePath)
        ensures
            r@ == self@,
    {
        proof {
            use_type_invariant(self);
        }
        let comps = copy_range(&self.comps, 0, self.comps.len());
        assert(texts(self.comps@).subrange(0, self.comps.len() as int) =~= texts(self.comps@));
        PurePath { absolute: self.absolute, comps }
    }
}

impl PartialEq for PurePath {
    fn eq(&self, o: &PurePath) -> (r: bool) {
        if self.absolute != o.absolute || self.comps.len() != o.comps.len() {
            assert(self@.comps.len() == self.comps.len() && o@.comps.len() == o.comps.len());
            return false;
        }
        let mut i: usize = 0;
        while i < self.comps.len()
            invariant
                i <= self.comps.len() == o.comps.len(),
                forall|j: int| 0 <= j < i ==> texts(self.comps@)[j] == texts(o.comps@)[j],
            decreases self.comps.len() - i,
        {
            if self.comps[i] != o.comps[i] {
                assert(self@.comps[i as int] != o@.comps[i as int]);
                return false;
            }
            i = i + 1;
        }
        assert(self@.comps =~= o@.comps);
        true
    }
}

impl vstd::std_specs::cmp::PartialEqSpecImpl for PurePath {
    open spec fn obeys_eq_spec() -> bool {
        true
    }

    open spec fn eq_spec(&self, o: &PurePath) -> bool {
        self@ == o@
    }
}

} // verus!
