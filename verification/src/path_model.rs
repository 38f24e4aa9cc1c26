//! A file-system path as the sequence of its components (`{a}/{b}/{c}` is `[a, b, c]`).
//! Artifact paths are built and taken apart component by component, so this is all the
//! library needs of a path; the conversion to an OS path happens at the I/O edge.
use vstd::prelude::*;

verus! {

#[derive(Debug, Clone)]
pub struct PathModel {
    pub components: Vec<String>,
}

impl View for PathModel {
    type V = Seq<Seq<char>>;

    open spec fn view(&self) -> Seq<Seq<char>> {
        self.components@.map_values(|s: String| s@)
    }
}

/// The character views of a sequence of strings.
pub open spec fn strs_view(v: Seq<String>) -> Seq<Seq<char>> {
    v.map_values(|s: String| s@)
}

/// `base` is a component-wise prefix of `path`.
pub open spec fn path_has_prefix(path: Seq<Seq<char>>, base: Seq<Seq<char>>) -> bool {
    base.len() <= path.len() && path.subrange(0, base.len() as int) == base
}

/// `Some(path without its last component)`, or `None` for the empty path.
pub open spec fn path_parent(path: Seq<Seq<char>>) -> Option<Seq<Seq<char>>> {
    if path.len() == 0 {
        None
    } else {
        Some(path.drop_last())
    }
}

/// The last component, or `None` for the empty path.
pub open spec fn path_file_name(path: Seq<Seq<char>>) -> Option<Seq<char>> {
    if path.len() == 0 {
        None
    } else {
        Some(path.last())
    }
}

pub fn copy_string(s: &String) -> (r: String)
    ensures
        r@ == s@,
{
    s.clone()
}

pub fn copy_opt_string(s: &Option<String>) -> (r: Option<String>)
    ensures
        r == *s,
{
    match s {
        Some(v) => Some(v.clone()),
        None => None,
    }
}

impl PathModel {
    /// The empty (relative) path.
    pub fn empty() -> (p: PathModel)
        ensures
            p@ == Seq::<Seq<char>>::empty(),
    {
        let p = PathModel { components: Vec::new() };
        assert(p@ =~= Seq::<Seq<char>>::empty());
        p
    }

    /// A path made of the given components.
    pub fn from_components(components: Vec<String>) -> (p: PathModel)
        ensures
            p.components == components,
    {
        PathModel { components }
    }

    /// A copy of this path.
    pub fn copy(&self) -> (p: PathModel)
        ensures
            p@ == self@,
    {
        let mut out: Vec<String> = Vec::new();
        let mut i: usize = 0;
        while i < self.components.len()
            invariant
                i <= self.components.len(),
                out@.map_values(|s: String| s@) == self@.subrange(0, i as int),
            decreases self.components.len() - i,
        {
            let c = copy_string(&self.components[i]);
            let ghost before = out@;
            out.push(c);
            assert(out@.map_values(|s: String| s@) == before.map_values(|s: String| s@).push(c@));
            i = i + 1;
        }
        let p = PathModel { components: out };
        assert(self@.subrange(0, self@.len() as int) == self@);
        p
    }

    /// This path with `name` appended as its last component.
    pub fn join(&self, name: &str) -> (p: PathModel)
        ensures
            p@ == self@.push(name@),
    {
        let mut p = self.copy();
        let ghost before = p.components@;
        p.components.push(name.to_owned());
        assert(p.components@.map_values(|s: String| s@) == before.map_values(|s: String| s@).push(name@));
        p
    }

    /// The path without its last component, or `None` for the empty path.
    pub fn parent(&self) -> (p: Option<PathModel>)
        ensures
            match p {
                Some(q) => path_parent(self@) == Some(q@),
                None => path_parent(self@) is None,
            },
    {
        if self.components.len() == 0 {
            return None;
        }
        let mut p = self.copy();
        let ghost before = p.components@;
        let _ = p.components.pop();
        assert(p.components@.map_values(|s: String| s@) == before.map_values(|s: String| s@).drop_last());
        Some(p)
    }

    /// The last component, or `None` for the empty path.
    pub fn file_name(&self) -> (n: Option<String>)
        ensures
            match n {
                Some(s) => path_file_name(self@) == Some(s@),
                None => path_file_name(self@) is None,
            },
    {
        let len = self.components.len();
        if len == 0 {
            None
        } else {
            Some(copy_string(&self.components[len - 1]))
        }
    }

    /// Whether the last component equals `name`.
    pub fn file_name_is(&self, name: &str) -> (r: bool)
        ensures
            r == (path_file_name(self@) == Some(name@)),
    {
        let len = self.components.len();
        if len == 0 {
            false
        } else {
            let own = self.components[len - 1].as_str();
            str_equal(own, name)
        }
    }

    /// Component-wise prefix test.
    pub fn starts_with(&self, base: &PathModel) -> (r: bool)
        ensures
            r == path_has_prefix(self@, base@),
    {
        let n = base.components.len();
        if n > self.components.len() {
            return false;
        }
        let mut i: usize = 0;
        while i < n
            invariant
                n == base@.len(),
                n <= self@.len(),
                i <= n,
                forall|j: int| 0 <= j < i ==> self@[j] == base@[j],
            decreases n - i,
        {
            if !str_equal(self.components[i].as_str(), base.components[i].as_str()) {
                assert(self@.subrange(0, n as int)[i as int] != base@[i as int]);
                return false;
            }
            i = i + 1;
        }
        assert(self@.subrange(0, n as int) =~= base@);
        true
    }

    /// Component-wise equality.
    pub fn same_path(&self, other: &PathModel) -> (r: bool)
        ensures
            r == (self@ == other@),
    {
        if self.components.len() != other.components.len() {
            return false;
        }
        let r = self.starts_with(other);
        if r {
            assert(self@.subrange(0, other@.len() as int) == self@);
        } else {
            assert(self@.subrange(0, self@.len() as int) == self@);
        }
        r
    }
}

/// Character-wise string equality.
pub fn str_equal(a: &str, b: &str) -> (r: bool)
    ensures
        r == (a@ == b@),
{
    let x = a.to_owned();
    let y = b.to_owned();
    x == y
}

} // verus!
