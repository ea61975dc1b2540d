//! Paths of names that identify entities.
use crate::text::{chars_of, string_of, strings_view};
use vstd::prelude::*;

verus! {

/// The segments of `s` from `start` on, cut at every `'.'`, where `i` is the
/// scanning position and no `'.'` lies in `s[start..i]`.
pub open spec fn dotted_from(s: Seq<char>, start: int, i: int) -> Seq<Seq<char>>
    decreases s.len() - i,
{
    if i >= s.len() {
        seq![s.subrange(start, s.len() as int)]
    } else if s[i] == '.' {
        seq![s.subrange(start, i)] + dotted_from(s, i + 1, i + 1)
    } else {
        dotted_from(s, start, i + 1)
    }
}

/// The path that a dotted name stands for: no segment for the empty text,
/// otherwise the pieces between the dots, in order.
pub open spec fn dotted_path(s: Seq<char>) -> Seq<Seq<char>> {
    if s.len() == 0 {
        Seq::empty()
    } else {
        dotted_from(s, 0, 0)
    }
}

/// Path of name segments that identifies an entity from some namespace down.
#[derive(Debug, Clone, PartialEq, Eq, Hash)]
pub struct EntityId {
    pub path: Vec<String>,
}

impl View for EntityId {
    type V = Seq<Seq<char>>;

    open spec fn view(&self) -> Seq<Seq<char>> {
        strings_view(self.path@)
    }
}

impl EntityId {
    /// The path with the given segments.
    pub fn new(path: Vec<String>) -> (r: EntityId)
        ensures
            r@ == strings_view(path@),
    {
        EntityId { path }
    }

    /// Number of segments.
    pub fn len(&self) -> (r: usize)
        ensures
            r == self@.len(),
    {
        self.path.len()
    }

    /// Whether the path has no segment.
    pub fn is_empty(&self) -> (r: bool)
        ensures
            r == (self@.len() == 0),
    {
        self.path.len() == 0
    }

    /// The last segment: the name of the entity itself.
    pub fn name(&self) -> (r: Option<&str>)
        ensures
            self@.len() == 0 <==> r is None,
            r matches Some(n) ==> n@ == self@.last(),
    {
        if self.path.len() == 0 {
            None
        } else {
            Some(self.path[self.path.len() - 1].as_str())
        }
    }

    /// The path without its last segment; none for the empty path.
    pub fn parent(&self) -> (r: Option<EntityId>)
        ensures
            self@.len() == 0 <==> r is None,
            r matches Some(p) ==> p@ == self@.drop_last(),
    {
        if self.path.len() == 0 {
            return None;
        }
        let mut path: Vec<String> = Vec::new();
        let mut i: usize = 0;
        while i + 1 < self.path.len()
            invariant
                i + 1 <= self.path.len(),
                path@.len() == i,
                forall|j: int| 0 <= j < i ==> (#[trigger] path@[j])@ == self.path@[j]@,
            decreases self.path.len() - i,
        {
            path.push(self.path[i].clone());
            i += 1;
        }
        let p = EntityId { path };
        assert(p@ =~= self@.drop_last());
        Some(p)
    }

    /// This path with one more segment at its end.
    pub fn child(&self, name: &str) -> (r: EntityId)
        ensures
            r@ == self@.push(name@),
    {
        let mut path: Vec<String> = Vec::new();
        let mut i: usize = 0;
        while i < self.path.len()
            invariant
                i <= self.path.len(),
                path@.len() == i,
                forall|j: int| 0 <= j < i ==> (#[trigger] path@[j])@ == self.path@[j]@,
            decreases self.path.len() - i,
        {
            path.push(self.path[i].clone());
            i += 1;
        }
        path.push(name.to_owned());
        let r = EntityId { path };
        assert(r@ =~= self@.push(name@));
        r
    }
}

impl From<&str> for EntityId {
    /// Reads a dotted name: `"a.b.c"` is the path `a`, `b`, `c`.
    fn from(s: &str) -> (r: EntityId)
        ensures
            r@ == dotted_path(s@),
    {
        let text = chars_of(s);
        let mut path: Vec<String> = Vec::new();
        if text.len() == 0 {
            let r = EntityId { path };
            assert(r@ =~= dotted_path(s@));
            return r;
        }
        let mut start: usize = 0;
        let mut i: usize = 0;
        while i < text.len()
            invariant
                start <= i <= text.len(),
                dotted_from(text@, 0, 0) == strings_view(path@) + dotted_from(
                    text@,
                    start as int,
                    i as int,
                ),
            decreases text.len() - i,
        {
            if text[i] == '.' {
                let ghost before = strings_view(path@);
                path.push(string_of(text.as_slice(), start, i));
                assert(strings_view(path@) =~= before + seq![
                    text@.subrange(start as int, i as int),
                ]);
                start = i + 1;
            }
            i += 1;
        }
        let ghost before = strings_view(path@);
        path.push(string_of(text.as_slice(), start, i));
        assert(strings_view(path@) =~= before + seq![
            text@.subrange(start as int, text@.len() as int),
        ]);
        EntityId { path }
    }
}

impl vstd::std_specs::convert::FromSpecImpl<&str> for EntityId {
    open spec fn obeys_from_spec() -> bool {
        false
    }

    open spec fn from_spec(s: &str) -> EntityId {
        arbitrary()
    }
}

} // verus!
