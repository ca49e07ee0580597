use vstd::prelude::*;

use crate::builtins::{BuiltinName, N_BUILTINS};

verus! {

/// What a computation costs the VM: steps, memory holes and, for each builtin (by its position
/// in the VM's list), how many of its instances were used.
#[verifier::ext_equal]
pub struct ResourceCount {
    pub steps: nat,
    pub holes: nat,
    pub builtins: Seq<nat>,
}

impl ResourceCount {
    /// The usage of builtin `b`.
    pub open spec fn builtin(self, b: BuiltinName) -> nat {
        self.builtins[b.index() as int]
    }

    pub open spec fn wf(self) -> bool {
        self.builtins.len() == N_BUILTINS
    }

    /// Pointwise sum.
    pub open spec fn plus(self, o: ResourceCount) -> ResourceCount {
        ResourceCount {
            steps: self.steps + o.steps,
            holes: self.holes + o.holes,
            builtins: Seq::new(N_BUILTINS as nat, |i: int| self.builtins[i] + o.builtins[i]),
        }
    }

    /// The cost with `steps` steps, `holes` memory holes and `n` uses of builtin `b` alone.
    pub open spec fn of(steps: nat, holes: nat, b: BuiltinName, n: nat) -> ResourceCount {
        ResourceCount {
            steps,
            holes,
            builtins: Seq::new(N_BUILTINS as nat, |i: int| if i == b.index() { n } else { 0 }),
        }
    }

    /// Every count fits a machine word.
    pub open spec fn fits(self) -> bool {
        &&& self.steps <= usize::MAX
        &&& self.holes <= usize::MAX
        &&& forall|i: int| 0 <= i < self.builtins.len() ==> self.builtins[i] <= usize::MAX
    }
}

/// Resources used by a computation of the VM; combines by pointwise addition.
#[derive(Debug)]
pub struct ExecutionResources {
    n_steps: usize,
    n_memory_holes: usize,
    builtin_instance_counter: Vec<usize>,
}

impl View for ExecutionResources {
    type V = ResourceCount;

    closed spec fn view(&self) -> ResourceCount {
        ResourceCount {
            steps: self.n_steps as nat,
            holes: self.n_memory_holes as nat,
            builtins: Seq::new(
                N_BUILTINS as nat,
                |i: int| self.builtin_instance_counter@[i] as nat,
            ),
        }
    }
}

impl ExecutionResources {
    #[verifier::type_invariant]
    closed spec fn inv(self) -> bool {
        self.builtin_instance_counter@.len() == N_BUILTINS
    }

    /// Every count of a view fits a machine word, and one count is held for each builtin.
    pub proof fn lemma_view(&self)
        ensures
            self@.wf(),
            self@.fits(),
    {
    }

    /// Resources with the given steps and memory holes, and no builtin usage.
    pub fn new(n_steps: usize, n_memory_holes: usize) -> (r: ExecutionResources)
        ensures
            r@ =~= ResourceCount::of(n_steps as nat, n_memory_holes as nat, BuiltinName::Output, 0),
    {
        let mut builtin_instance_counter: Vec<usize> = Vec::new();
        let mut i: usize = 0;
        while i < N_BUILTINS
            invariant
                i <= N_BUILTINS,
                builtin_instance_counter@.len() == i,
                forall|j: int| 0 <= j < i ==> builtin_instance_counter@[j] == 0,
            decreases N_BUILTINS - i,
        {
            builtin_instance_counter.push(0);
            i = i + 1;
        }
        ExecutionResources { n_steps, n_memory_holes, builtin_instance_counter }
    }

    /// The same resources, with the usage of builtin `b` set to `n`.
    pub fn with_builtin(self, b: BuiltinName, n: usize) -> (r: ExecutionResources)
        ensures
            r@ =~= (ResourceCount { builtins: self@.builtins.update(b.index() as int, n as nat), ..self@ }),
    {
        proof {
            use_type_invariant(&self);
        }
        let ExecutionResources { n_steps, n_memory_holes, builtin_instance_counter } = self;
        let mut counter = builtin_instance_counter;
        counter.set(b.idx(), n);
        ExecutionResources { n_steps, n_memory_holes, builtin_instance_counter: counter }
    }

    pub fn n_steps(&self) -> (r: usize)
        ensures
            r == self@.steps,
    {
        self.n_steps
    }

    pub fn n_memory_holes(&self) -> (r: usize)
        ensures
            r == self@.holes,
    {
        self.n_memory_holes
    }

    /// How many instances of builtin `b` were used.
    pub fn builtin_count(&self, b: BuiltinName) -> (r: usize)
        ensures
            r == self@.builtin(b),
    {
        proof {
            use_type_invariant(self);
        }
        self.builtin_instance_counter[b.idx()]
    }

    /// The pointwise sum of two resource records.
    pub fn add(&self, o: &ExecutionResources) -> (r: ExecutionResources)
        requires
            self@.plus(o@).fits(),
        ensures
            r@ =~= self@.plus(o@),
    {
        proof {
            use_type_invariant(self);
            use_type_invariant(o);
        }
        let mut builtin_instance_counter: Vec<usize> = Vec::new();
        let mut i: usize = 0;
        while i < N_BUILTINS
            invariant
                i <= N_BUILTINS,
                self.builtin_instance_counter@.len() == N_BUILTINS,
                o.builtin_instance_counter@.len() == N_BUILTINS,
                self@.plus(o@).fits(),
                builtin_instance_counter@.len() == i,
                forall|j: int|
                    0 <= j < i ==> builtin_instance_counter@[j] == self.builtin_instance_counter@[j]
                        + o.builtin_instance_counter@[j],
            decreases N_BUILTINS - i,
        {
            assert(self@.plus(o@).builtins[i as int] <= usize::MAX);
            builtin_instance_counter.push(
                self.builtin_instance_counter[i] + o.builtin_instance_counter[i],
            );
            i = i + 1;
        }
        ExecutionResources {
            n_steps: self.n_steps + o.n_steps,
            n_memory_holes: self.n_memory_holes + o.n_memory_holes,
            builtin_instance_counter,
        }
    }
}

impl PartialEq for ExecutionResources {
    fn eq(&self, o: &ExecutionResources) -> (r: bool) {
        proof {
            use_type_invariant(self);
            use_type_invariant(o);
        }
        if self.n_steps != o.n_steps || self.n_memory_holes != o.n_memory_holes {
            return false;
        }
        let mut i: usize = 0;
        while i < N_BUILTINS
            invariant
                i <= N_BUILTINS,
                self.builtin_instance_counter@.len() == N_BUILTINS,
                o.builtin_instance_counter@.len() == N_BUILTINS,
                forall|j: int|
                    0 <= j < i ==> self.builtin_instance_counter@[j]
                        == o.builtin_instance_counter@[j],
            decreases N_BUILTINS - i,
        {
            if self.builtin_instance_counter[i] != o.builtin_instance_counter[i] {
                assert(self@.builtins[i as int] != o@.builtins[i as int]);
                return false;
            }
            i = i + 1;
        }
        assert(self@ =~= o@);
        true
    }
}

impl vstd::std_specs::cmp::PartialEqSpecImpl for ExecutionResources {
    open spec fn obeys_eq_spec() -> bool {
        true
    }

    open spec fn eq_spec(&self, o: &ExecutionResources) -> bool {
        self@ =~= o@
    }
}

impl Eq for ExecutionResources {
}

} // verus!
