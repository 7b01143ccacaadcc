//! The mathematical model of a path: whether it starts at the root, and the
//! sequence of its components, each a sequence of characters.

use vstd::prelude::*;

verus! {

/// Why a lexical operation produced no path.
#[derive(PartialEq, Eq, Structural, Clone, Copy, Debug)]
pub enum PathError {
    /// The path has no final component to operate on.
    NoName,
    /// The requested final component is not a single valid component.
    InvalidName,
    /// The requested suffix is neither empty nor a dot followed by text.
    InvalidSuffix,
    /// The base is not a leading sequence of this path's components.
    NotAPrefix,
    /// The operation needs an absolute path.
    NotAbsolute,
}

/// The separator between components, and the root marker.
pub const SEPARATOR: char = '/';

/// A component is a non-empty run of characters without separator, other than `.`.
pub open spec fn is_valid_component(c: Seq<char>) -> bool {
    &&& c.len() > 0
    &&& !c.contains(SEPARATOR)
    &&& c != seq!['.']
}

/// The value of a path.
pub struct PathModel {
    pub absolute: bool,
    pub comps: Seq<Seq<char>>,
}

/// Appends the component under construction, unless it is empty or `.`.
pub open spec fn keep_component(done: Seq<Seq<char>>, cur: Seq<char>) -> Seq<Seq<char>> {
    if cur.len() == 0 || cur == seq!['.'] {
        done
    } else {
        done.push(cur)
    }
}

/// Splits `s` at each separator: the components completed so far, and the
/// characters read since the last separator.
pub open spec fn scan(s: Seq<char>) -> (Seq<Seq<char>>, Seq<char>)
    decreases s.len(),
{
    if s.len() == 0 {
        (Seq::empty(), Seq::empty())
    } else {
        let (done, cur) = scan(s.drop_last());
        if s.last() == SEPARATOR {
            (keep_component(done, cur), Seq::empty())
        } else {
            (done, cur.push(s.last()))
        }
    }
}

/// The path that the text `s` denotes: empty components and `.` are dropped.
pub open spec fn parse_model(s: Seq<char>) -> PathModel {
    PathModel {
        absolute: s.len() > 0 && s[0] == SEPARATOR,
        comps: keep_component(scan(s).0, scan(s).1),
    }
}

/// The components written one after another with a separator between them.
pub open spec fn join_comps(comps: Seq<Seq<char>>) -> Seq<char>
    decreases comps.len(),
{
    if comps.len() == 0 {
        Seq::empty()
    } else if comps.len() == 1 {
        comps[0]
    } else {
        join_comps(comps.drop_last()) + seq![SEPARATOR] + comps.last()
    }
}

/// Index of the last `.` in `n`, or -1 when there is none.
pub open spec fn last_dot(n: Seq<char>) -> int
    decreases n.len(),
{
    if n.len() == 0 {
        -1
    } else if n.last() == '.' {
        n.len() - 1
    } else {
        last_dot(n.drop_last())
    }
}

/// The last dot lies inside the name, and nothing after it is a dot.
pub proof fn lemma_last_dot_bounds(n: Seq<char>)
    ensures
        -1 <= last_dot(n) < n.len(),
        last_dot(n) >= 0 ==> n[last_dot(n)] == '.',
    decreases n.len(),
{
    if n.len() > 0 && n.last() != '.' {
        lemma_last_dot_bounds(n.drop_last());
    }
}

/// A name has a suffix when its last dot is neither its first nor its last character.
pub open spec fn has_suffix(n: Seq<char>) -> bool {
    0 < last_dot(n) < n.len() - 1
}

/// The name without its final suffix.
pub open spec fn stem_of(n: Seq<char>) -> Seq<char> {
    if has_suffix(n) {
        n.take(last_dot(n))
    } else {
        n
    }
}

/// The final suffix of a name, dot included, when it has one.
pub open spec fn suffix_of(n: Seq<char>) -> Option<Seq<char>> {
    if has_suffix(n) {
        Some(n.skip(last_dot(n)))
    } else {
        None
    }
}

/// All suffixes of a name, in order: the final suffix is peeled off until none is left.
pub open spec fn suffixes_of(n: Seq<char>) -> Seq<Seq<char>>
    decreases n.len(),
{
    if has_suffix(n) {
        suffixes_of(n.take(last_dot(n))).push(n.skip(last_dot(n)))
    } else {
        Seq::empty()
    }
}

/// A suffix that may replace another: empty, or a dot followed by text without separator.
pub open spec fn is_valid_suffix(s: Seq<char>) -> bool {
    s.len() == 0 || (s.len() >= 2 && s[0] == '.' && !s.contains(SEPARATOR))
}

impl PathModel {
    /// Every component is valid.
    pub open spec fn wf(self) -> bool {
        forall|i: int| 0 <= i < self.comps.len() ==> is_valid_component(#[trigger] self.comps[i])
    }

    /// The text of the path, with `/` as separator; the empty relative path is `.`.
    pub open spec fn render(self) -> Seq<char> {
        if self.absolute {
            seq![SEPARATOR] + join_comps(self.comps)
        } else if self.comps.len() == 0 {
            seq!['.']
        } else {
            join_comps(self.comps)
        }
    }

    /// The final component, absent for the empty path and the root.
    pub open spec fn name(self) -> Option<Seq<char>> {
        if self.comps.len() == 0 {
            None
        } else {
            Some(self.comps.last())
        }
    }

    pub open spec fn stem(self) -> Option<Seq<char>> {
        if self.comps.len() == 0 {
            None
        } else {
            Some(stem_of(self.comps.last()))
        }
    }

    pub open spec fn suffix(self) -> Option<Seq<char>> {
        if self.comps.len() == 0 {
            None
        } else {
            suffix_of(self.comps.last())
        }
    }

    pub open spec fn suffixes(self) -> Seq<Seq<char>> {
        if self.comps.len() == 0 {
            Seq::empty()
        } else {
            suffixes_of(self.comps.last())
        }
    }

    /// The path without its final component, absent when there is none.
    pub open spec fn parent(self) -> Option<PathModel> {
        if self.comps.len() == 0 {
            None
        } else {
            Some(PathModel { absolute: self.absolute, comps: self.comps.drop_last() })
        }
    }

    /// The ancestors, from the parent up to the root (or the empty relative path).
    pub open spec fn parents(self) -> Seq<PathModel> {
        Seq::new(
            self.comps.len(),
            |j: int| PathModel { absolute: self.absolute, comps: self.comps.take(self.comps.len() - 1 - j) },
        )
    }

    /// The root marker, if any, followed by the components.
    pub open spec fn parts(self) -> Seq<Seq<char>> {
        if self.absolute {
            seq![seq![SEPARATOR]] + self.comps
        } else {
            self.comps
        }
    }

    /// `other` appended to this path; an absolute `other` replaces it.
    pub open spec fn join(self, other: PathModel) -> PathModel {
        if other.absolute {
            other
        } else {
            PathModel { absolute: self.absolute, comps: self.comps + other.comps }
        }
    }

    /// Whether `base` is a literal leading sequence of this path's components.
    pub open spec fn starts_with(self, base: PathModel) -> bool {
        &&& base.absolute == self.absolute
        &&& base.comps.len() <= self.comps.len()
        &&& self.comps.take(base.comps.len() as int) == base.comps
    }

    /// The path with `base`'s components stripped from its front. The empty
    /// relative path leads every path, which it leaves unchanged.
    pub open spec fn relative_to(self, base: PathModel) -> Result<PathModel, PathError> {
        if !base.absolute && base.comps.len() == 0 {
            Ok(self)
        } else if self.starts_with(base) {
            Ok(PathModel { absolute: false, comps: self.comps.skip(base.comps.len() as int) })
        } else {
            Err(PathError::NotAPrefix)
        }
    }

    /// The path with its final component replaced by `n`.
    pub open spec fn with_name(self, n: Seq<char>) -> Result<PathModel, PathError> {
        if self.comps.len() == 0 {
            Err(PathError::NoName)
        } else if !is_valid_component(n) {
            Err(PathError::InvalidName)
        } else {
            Ok(PathModel { absolute: self.absolute, comps: self.comps.update(self.comps.len() - 1, n) })
        }
    }

    /// The path with the final suffix of its name replaced by `s` (added when there is none).
    pub open spec fn with_suffix(self, s: Seq<char>) -> Result<PathModel, PathError> {
        if self.comps.len() == 0 {
            Err(PathError::NoName)
        } else if !is_valid_suffix(s) {
            Err(PathError::InvalidSuffix)
        } else {
            self.with_name(stem_of(self.comps.last()) + s)
        }
    }
}

} // verus!
