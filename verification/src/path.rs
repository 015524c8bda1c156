//! Paths as sequences of components, independent of the host's separator.

use vstd::prelude::*;
use crate::text::{join_strings, join_with, replace_all, replace_char, strings_view};

verus! {

/// A path held as its components, outermost first.
#[derive(Debug, PartialEq, Eq)]
pub struct PackPath {
    pub parts: Vec<String>,
}

impl View for PackPath {
    type V = Seq<Seq<char>>;

    open spec fn view(&self) -> Seq<Seq<char>> {
        Seq::new(self.parts@.len(), |i: int| self.parts@[i]@)
    }
}

/// The components joined by `/`, with no leading or trailing separator.
pub open spec fn slash_join(parts: Seq<Seq<char>>) -> Seq<char> {
    join_with(parts, seq!['/'])
}

/// The name an entry carries inside an archive: its components joined by
/// `/`, and every backslash turned into `/` as well.
pub open spec fn archive_name(parts: Seq<Seq<char>>) -> Seq<char> {
    replace_char(slash_join(parts), '\\', seq!['/'])
}

impl Clone for PackPath {
    fn clone(&self) -> (r: Self)
        ensures
            r@ == self@,
    {
        let mut parts: Vec<String> = Vec::new();
        let mut i: usize = 0;
        while i < self.parts.len()
            invariant
                i <= self.parts@.len(),
                parts@.len() == i,
                forall|j: int| 0 <= j < i ==> parts@[j]@ == self.parts@[j]@,
            decreases self.parts@.len() - i,
        {
            parts.push(self.parts[i].clone());
            i += 1;
        }
        let r = PackPath { parts };
        assert(r@ =~= self@);
        r
    }
}

impl PackPath {
    /// The path with no components.
    pub fn new() -> (r: Self)
        ensures
            r@ == Seq::<Seq<char>>::empty(),
    {
        let r = PackPath { parts: Vec::new() };
        assert(r@ =~= Seq::<Seq<char>>::empty());
        r
    }

    /// The path made of the given components.
    pub fn from_parts(parts: Vec<String>) -> (r: Self)
        ensures
            r.parts == parts,
    {
        PackPath { parts }
    }

    /// Number of components.
    pub fn len(&self) -> (n: usize)
        ensures
            n == self@.len(),
    {
        self.parts.len()
    }

    /// This path with one more component at its end.
    pub fn child(&self, name: &str) -> (r: Self)
        ensures
            r@ == self@.push(name@),
    {
        let mut r = self.clone();
        let ghost before = r@;
        r.parts.push(String::from_str(name));
        assert(r@ =~= before.push(name@));
        r
    }

    /// This path followed by all components of `rel`.
    pub fn join(&self, rel: &PackPath) -> (r: Self)
        ensures
            r@ == self@ + rel@,
    {
        let mut r = self.clone();
        let mut i: usize = 0;
        while i < rel.parts.len()
            invariant
                i <= rel.parts@.len(),
                r@ == self@ + rel@.take(i as int),
            decreases rel.parts@.len() - i,
        {
            let ghost before = r@;
            r.parts.push(rel.parts[i].clone());
            assert(r@ =~= before.push(rel@[i as int]));
            assert(rel@.take(i + 1) =~= rel@.take(i as int).push(rel@[i as int]));
            assert(r@ =~= self@ + rel@.take(i + 1));
            i += 1;
        }
        assert(rel@.take(rel.parts@.len() as int) =~= rel@);
        r
    }

    /// Whether the components of `self` from position `at` on begin with all
    /// components of `other`.
    fn matches_at(&self, at: usize, other: &PackPath) -> (r: bool)
        requires
            at + other@.len() <= self@.len(),
        ensures
            r == (self@.subrange(at as int, at + other@.len()) == other@),
    {
        let n: usize = other.parts.len();
        let total: usize = self.parts.len();
        let mut i: usize = 0;
        while i < n
            invariant
                n == other@.len(),
                at + n <= total,
                total == self.parts@.len(),
                self@.len() == self.parts@.len(),
                i <= n,
                forall|j: int| 0 <= j < i ==> self@[at + j] == other@[j],
            decreases n - i,
        {
            if self.parts[at + i] != other.parts[i] {
                assert(self@.subrange(at as int, at + n)[i as int] != other@[i as int]);
                return false;
            }
            i += 1;
        }
        assert(self@.subrange(at as int, at + n) =~= other@);
        true
    }

    /// Whether `base` is a leading run of whole components of this path.
    pub fn starts_with(&self, base: &PackPath) -> (r: bool)
        ensures
            r == base@.is_prefix_of(self@),
    {
        if base.parts.len() > self.parts.len() {
            return false;
        }
        self.matches_at(0, base)
    }

    /// Whether `tail` is a trailing run of whole components of this path.
    pub fn ends_with(&self, tail: &PackPath) -> (r: bool)
        ensures
            r == tail@.is_suffix_of(self@),
    {
        if tail.parts.len() > self.parts.len() {
            return false;
        }
        self.matches_at(self.parts.len() - tail.parts.len(), tail)
    }

    /// This path relative to `base`: the components that follow `base`, or
    /// `None` where the path does not lie under `base`.
    pub fn strip_prefix(&self, base: &PackPath) -> (r: Option<PackPath>)
        ensures
            r.is_some() == base@.is_prefix_of(self@),
            r.is_some() ==> r.unwrap()@ == self@.skip(base@.len() as int),
    {
        if !self.starts_with(base) {
            return None;
        }
        let mut parts: Vec<String> = Vec::new();
        let start: usize = base.parts.len();
        let mut i: usize = start;
        while i < self.parts.len()
            invariant
                start <= i <= self.parts@.len(),
                parts@.len() == i - start,
                forall|j: int| 0 <= j < i - start ==> parts@[j]@ == self@[start + j],
            decreases self.parts@.len() - i,
        {
            parts.push(self.parts[i].clone());
            i += 1;
        }
        let rest = PackPath { parts };
        assert(rest@ =~= self@.skip(start as int));
        Some(rest)
    }

    /// The last component, if there is one.
    pub fn file_name(&self) -> (r: Option<String>)
        ensures
            r.is_some() == (self@.len() > 0),
            r.is_some() ==> r.unwrap()@ == self@.last(),
    {
        if self.parts.len() == 0 {
            None
        } else {
            Some(self.parts[self.parts.len() - 1].clone())
        }
    }

    /// The path without its last component, if it has one.
    pub fn parent(&self) -> (r: Option<PackPath>)
        ensures
            r.is_some() == (self@.len() > 0),
            r.is_some() ==> r.unwrap()@ == self@.drop_last(),
    {
        if self.parts.len() == 0 {
            return None;
        }
        let mut up = self.clone();
        let ghost before = up@;
        up.parts.pop();
        assert(up@ =~= before.drop_last());
        Some(up)
    }

    /// The components joined by `/`.
    pub fn to_slash_string(&self) -> (r: String)
        ensures
            r@ == slash_join(self@),
    {
        proof {
            reveal_strlit("/");
            assert("/"@ =~= seq!['/']);
            assert(strings_view(self.parts@) =~= self@);
        }
        join_strings(&self.parts, "/")
    }

    /// The name an entry at this (relative) path carries inside an archive.
    pub fn to_archive_name(&self) -> (r: String)
        ensures
            r@ == archive_name(self@),
    {
        let joined = self.to_slash_string();
        proof {
            reveal_strlit("/");
            assert("/"@ =~= seq!['/']);
        }
        replace_all(joined.as_str(), '\\', "/")
    }
}

/// Joining a relative path under a root and stripping the root again gives
/// the relative path back.
pub proof fn lemma_strip_join(root: Seq<Seq<char>>, rel: Seq<Seq<char>>)
    ensures
        root.is_prefix_of(root + rel),
        (root + rel).skip(root.len() as int) == rel,
{
    assert((root + rel).subrange(0, root.len() as int) =~= root);
    assert((root + rel).skip(root.len() as int) =~= rel);
}

} // verus!
