use vstd::prelude::*;

verus! {

broadcast use vstd::std_specs::vec::group_vec_axioms;

/// How bytecode is laid out in segments: a run of `length` words, or an ordered sequence of
/// segments whose runs, one after another, make up the node's run.
#[derive(Debug, PartialEq, Eq)]
pub enum NestedIntList {
    Leaf(usize),
    Node(Vec<NestedIntList>),
}

/// The number of bytecode words the tree spans.
pub open spec fn total_len(t: NestedIntList) -> nat
    decreases t,
{
    match t {
        NestedIntList::Leaf(n) => n as nat,
        NestedIntList::Node(c) => seq_len(c@),
    }
}

/// The number of bytecode words a sequence of segments spans.
pub open spec fn seq_len(s: Seq<NestedIntList>) -> nat
    decreases s,
{
    if s.len() == 0 {
        0
    } else {
        seq_len(s.drop_last()) + total_len(s.last())
    }
}

/// The layout of a segment tree as a mathematical value.
pub enum SegmentShape {
    Leaf(nat),
    Node(Seq<SegmentShape>),
}

/// The layout of `t`.
pub open spec fn shape(t: NestedIntList) -> SegmentShape
    decreases t,
{
    match t {
        NestedIntList::Leaf(n) => SegmentShape::Leaf(n as nat),
        NestedIntList::Node(c) => SegmentShape::Node(shapes(c@)),
    }
}

/// The layouts of the segments of `s`, in order.
pub open spec fn shapes(s: Seq<NestedIntList>) -> Seq<SegmentShape>
    decreases s,
{
    if s.len() == 0 {
        Seq::empty()
    } else {
        shapes(s.drop_last()).push(shape(s.last()))
    }
}

impl NestedIntList {
    /// A copy of the tree.
    pub fn duplicate(&self) -> (r: NestedIntList)
        ensures
            shape(r) == shape(*self),
            total_len(r) == total_len(*self),
        decreases self,
    {
        match self {
            NestedIntList::Leaf(n) => NestedIntList::Leaf(*n),
            NestedIntList::Node(c) => {
                let mut children: Vec<NestedIntList> = Vec::new();
                let mut i: usize = 0;
                while i < c.len()
                    invariant
                        *self == NestedIntList::Node(*c),
                        i <= c@.len(),
                        children@.len() == i,
                        shapes(children@) == shapes(c@.take(i as int)),
                        seq_len(children@) == seq_len(c@.take(i as int)),
                    decreases c@.len() - i,
                {
                    proof {
                        let t = *self;
                        assert(t->Node_0 == *c);
                        assert(decreases_to!(t => t->Node_0));
                        assert(decreases_to!(*c => c@[i as int]));
                    }
                    let child = c[i].duplicate();
                    proof {
                        assert(c@.take(i + 1).drop_last() =~= c@.take(i as int));
                    }
                    let ghost before = children@;
                    children.push(child);
                    proof {
                        assert(children@.drop_last() =~= before);
                    }
                    i = i + 1;
                }
                proof {
                    assert(c@.take(i as int) =~= c@);
                }
                NestedIntList::Node(children)
            },
        }
    }
}

impl Clone for NestedIntList {
    fn clone(&self) -> (r: NestedIntList)
        ensures
            shape(r) == shape(*self),
            total_len(r) == total_len(*self),
    {
        self.duplicate()
    }
}

} // verus!
