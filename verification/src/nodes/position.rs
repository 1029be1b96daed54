use vstd::prelude::*;
use vstd::string::StringExecFns;

verus! {

/// The pointer text of a path: each segment with a `/` in front of it.
pub open spec fn pointer_text(path: Seq<Seq<char>>) -> Seq<char>
    decreases path.len(),
{
    if path.len() == 0 {
        Seq::empty()
    } else {
        pointer_text(path.drop_last()) + seq!['/'] + path.last()
    }
}

/// True when no segment of the path holds the separator `/`.
pub open spec fn separator_free(path: Seq<Seq<char>>) -> bool {
    forall|i: int| 0 <= i < path.len() ==> !(#[trigger] path[i]).contains('/')
}

/// The views of the strings of `v`.
pub open spec fn segments(v: Seq<String>) -> Seq<Seq<char>> {
    Seq::new(v.len(), |i: int| v[i]@)
}

/// The address of a node in a workflow document: a sequence of path segments, written as
/// a pointer such as `/a/b/0`. The root is the empty sequence.
#[derive(Debug, PartialEq, Eq, Hash)]
pub struct NodePosition {
    path: Vec<String>,
}

impl View for NodePosition {
    type V = Seq<Seq<char>>;

    closed spec fn view(&self) -> Seq<Seq<char>> {
        segments(self.path@)
    }
}

impl Clone for NodePosition {
    fn clone(&self) -> (r: Self)
        ensures
            r@ == self@,
    {
        let mut path: Vec<String> = Vec::new();
        let mut i: usize = 0;
        while i < self.path.len()
            invariant
                i <= self.path.len(),
                path@.len() == i,
                forall|j: int| 0 <= j < i ==> path@[j]@ == self.path@[j]@,
            decreases self.path.len() - i,
        {
            path.push(self.path[i].clone());
            i = i + 1;
        }
        let r = NodePosition { path };
        assert(r@ =~= self@);
        r
    }
}

impl NodePosition {
    /// True when no segment holds the separator.
    pub open spec fn wf(&self) -> bool {
        separator_free(self@)
    }

    /// The position of the root: no segments.
    pub fn root() -> (r: Self)
        ensures
            r@ == Seq::<Seq<char>>::empty(),
            r.wf(),
    {
        let r = NodePosition { path: Vec::new() };
        assert(r@ =~= Seq::<Seq<char>>::empty());
        r
    }

    /// Appends a name, which must not hold the separator.
    pub fn add_name(self, name: &str) -> (r: Self)
        requires
            !name@.contains('/'),
        ensures
            r@ == self@.push(name@),
            self.wf() ==> r.wf(),
    {
        self.add_token(name)
    }

    /// Appends a segment as it is.
    pub fn add_token(self, token: &str) -> (r: Self)
        ensures
            r@ == self@.push(token@),
            self.wf() && !token@.contains('/') ==> r.wf(),
    {
        let mut path = self.path;
        path.push(token.to_owned());
        let r = NodePosition { path };
        assert(r@ =~= self@.push(token@));
        r
    }

    /// Appends an index, written as a decimal numeral.
    pub fn add_index(self, index: usize) -> (r: Self)
        ensures
            r@ == self@.push(crate::text::decimal(index as nat)),
            self.wf() ==> r.wf(),
    {
        let mut path = self.path;
        path.push(crate::text::decimal_string(index));
        let r = NodePosition { path };
        assert(r@ =~= self@.push(crate::text::decimal(index as nat)));
        proof {
            crate::text::lemma_decimal_has_no_slash(index as nat);
        }
        r
    }

    /// The segments of the path, in their order.
    pub fn segments(&self) -> (r: Vec<String>)
        ensures
            segments(r@) == self@,
    {
        let copy = self.clone();
        copy.path
    }

    /// The position one segment up, or nothing for the root.
    pub fn parent(&self) -> (r: Option<Self>)
        ensures
            self@.len() == 0 ==> r is None,
            self@.len() > 0 ==> r is Some && r->0@ == self@.drop_last(),
            self.wf() && r is Some ==> r->0.wf(),
    {
        if self.path.len() == 0 {
            None
        } else {
            let n = self.path.len() - 1;
            let mut path: Vec<String> = Vec::new();
            let mut i: usize = 0;
            while i < n
                invariant
                    n == self.path.len() - 1,
                    i <= n,
                    path@.len() == i,
                    forall|j: int| 0 <= j < i ==> path@[j]@ == self.path@[j]@,
                decreases n - i,
            {
                path.push(self.path[i].clone());
                i = i + 1;
            }
            let r = NodePosition { path };
            assert(r@ =~= self@.drop_last());
            Some(r)
        }
    }

    /// The position as a pointer: empty for the root, else `/` before each segment.
    pub fn as_pointer(&self) -> (s: String)
        ensures
            s@ == pointer_text(self@),
    {
        let mut s = String::new();
        let mut i: usize = 0;
        proof {
            reveal_strlit("/");
            assert(self@.take(0) =~= Seq::<Seq<char>>::empty());
        }
        while i < self.path.len()
            invariant
                i <= self.path.len(),
                s@ == pointer_text(self@.take(i as int)),
                "/"@ == seq!['/'],
            decreases self.path.len() - i,
        {
            s.append("/");
            s.append(self.path[i].as_str());
            i = i + 1;
            proof {
                let now = self@.take(i as int);
                assert(now.drop_last() =~= self@.take(i - 1));
                assert(now.last() == self.path[i - 1]@);
            }
        }
        assert(self@.take(i as int) =~= self@);
        s
    }
}

} // verus!
