use vstd::prelude::*;

verus! {

/// Whether the last segments of `path` are exactly `pat`.
pub open spec fn ends_with(path: Seq<Seq<char>>, pat: Seq<Seq<char>>) -> bool {
    pat.len() <= path.len() && path.subrange(path.len() - pat.len(), path.len() as int) == pat
}

pub open spec fn views(v: Seq<String>) -> Seq<Seq<char>> {
    v.map_values(|s: String| s@)
}

pub open spec fn str_views(v: Seq<&str>) -> Seq<Seq<char>> {
    v.map_values(|s: &str| s@)
}

/// The ancestor path of the markup node being processed, outermost first.
pub struct PathContext {
    segs: Vec<String>,
}

impl View for PathContext {
    type V = Seq<Seq<char>>;

    closed spec fn view(&self) -> Seq<Seq<char>> {
        views(self.segs@)
    }
}

impl PathContext {
    pub fn new() -> (r: PathContext)
        ensures
            r@ == Seq::<Seq<char>>::empty(),
    {
        let r = PathContext { segs: Vec::new() };
        assert(r@ =~= Seq::<Seq<char>>::empty());
        r
    }

    pub fn enter(&mut self, name: String)
        ensures
            final(self)@ == old(self)@.push(name@),
    {
        self.segs.push(name);
        assert(self@ =~= old(self)@.push(name@));
    }

    /// Removes and returns the innermost segment; an empty path stays empty.
    pub fn leave(&mut self) -> (r: Option<String>)
        ensures
            old(self)@.len() == 0 ==> r.is_none() && final(self)@ == old(self)@,
            old(self)@.len() > 0 ==> final(self)@ == old(self)@.drop_last() && r.is_some()
                && r.unwrap()@ == old(self)@.last(),
    {
        let r = self.segs.pop();
        assert(self@ =~= if old(self)@.len() > 0 { old(self)@.drop_last() } else { old(self)@ });
        r
    }

    pub fn len(&self) -> (r: usize)
        ensures
            r == self@.len(),
    {
        self.segs.len()
    }

    /// Whether the trailing segments equal `pat`.
    pub fn ends_with(&self, pat: &Vec<&str>) -> (r: bool)
        ensures
            r == ends_with(self@, str_views(pat@)),
    {
        let n = self.segs.len();
        let m = pat.len();
        if m > n {
            return false;
        }
        let mut i: usize = 0;
        while i < m
            invariant
                n == self.segs@.len(),
                m == pat@.len(),
                m <= n,
                i <= m,
                forall|j: int| 0 <= j < i ==> self@[n - m + j] == str_views(pat@)[j],
            decreases m - i,
        {
            if !crate::text::str_eq(self.segs[n - m + i].as_str(), pat[i]) {
                assert(self@.subrange(n - m, n as int)[i as int] != str_views(pat@)[i as int]);
                return false;
            }
            i = i + 1;
        }
        assert(self@.subrange(n - m, n as int) =~= str_views(pat@));
        true
    }

    /// Whether the whole path equals `pat`.
    pub fn is(&self, pat: &Vec<&str>) -> (r: bool)
        ensures
            r == (self@ == str_views(pat@)),
    {
        if self.segs.len() != pat.len() {
            return false;
        }
        let r = self.ends_with(pat);
        assert(self@.subrange(0, self@.len() as int) =~= self@);
        r
    }

    /// Whether some segment equals `name`.
    pub fn contains(&self, name: &str) -> (r: bool)
        ensures
            r == self@.contains(name@),
    {
        let mut i: usize = 0;
        while i < self.segs.len()
            invariant
                i <= self.segs@.len(),
                forall|j: int| 0 <= j < i ==> self@[j] != name@,
            decreases self.segs@.len() - i,
        {
            if crate::text::str_eq(self.segs[i].as_str(), name) {
                assert(self@[i as int] == name@);
                return true;
            }
            i = i + 1;
        }
        false
    }
}

} // verus!
