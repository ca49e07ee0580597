use vstd::prelude::*;

verus! {

/// The number of builtins the VM knows.
pub const N_BUILTINS: usize = 12;

/// A builtin of the VM: a specialised computation unit whose usage is counted apart from steps.
#[derive(Clone, Copy, Debug, PartialEq, Eq, Structural, Hash)]
pub enum BuiltinName {
    Output,
    RangeCheck,
    Pedersen,
    Ecdsa,
    Keccak,
    Bitwise,
    EcOp,
    Poseidon,
    SegmentArena,
    RangeCheck96,
    AddMod,
    MulMod,
}

impl BuiltinName {
    /// The builtin's position in the VM's list of builtins.
    pub open spec fn index(self) -> nat {
        match self {
            BuiltinName::Output => 0,
            BuiltinName::RangeCheck => 1,
            BuiltinName::Pedersen => 2,
            BuiltinName::Ecdsa => 3,
            BuiltinName::Keccak => 4,
            BuiltinName::Bitwise => 5,
            BuiltinName::EcOp => 6,
            BuiltinName::Poseidon => 7,
            BuiltinName::SegmentArena => 8,
            BuiltinName::RangeCheck96 => 9,
            BuiltinName::AddMod => 10,
            BuiltinName::MulMod => 11,
        }
    }

    /// The builtin at position `i` of the VM's list.
    pub open spec fn at(i: nat) -> BuiltinName {
        if i == 0 {
            BuiltinName::Output
        } else if i == 1 {
            BuiltinName::RangeCheck
        } else if i == 2 {
            BuiltinName::Pedersen
        } else if i == 3 {
            BuiltinName::Ecdsa
        } else if i == 4 {
            BuiltinName::Keccak
        } else if i == 5 {
            BuiltinName::Bitwise
        } else if i == 6 {
            BuiltinName::EcOp
        } else if i == 7 {
            BuiltinName::Poseidon
        } else if i == 8 {
            BuiltinName::SegmentArena
        } else if i == 9 {
            BuiltinName::RangeCheck96
        } else if i == 10 {
            BuiltinName::AddMod
        } else {
            BuiltinName::MulMod
        }
    }

    /// The builtin's plain name.
    pub open spec fn name(self) -> Seq<char> {
        match self {
            BuiltinName::Output => "output"@,
            BuiltinName::RangeCheck => "range_check"@,
            BuiltinName::Pedersen => "pedersen"@,
            BuiltinName::Ecdsa => "ecdsa"@,
            BuiltinName::Keccak => "keccak"@,
            BuiltinName::Bitwise => "bitwise"@,
            BuiltinName::EcOp => "ec_op"@,
            BuiltinName::Poseidon => "poseidon"@,
            BuiltinName::SegmentArena => "segment_arena"@,
            BuiltinName::RangeCheck96 => "range_check96"@,
            BuiltinName::AddMod => "add_mod"@,
            BuiltinName::MulMod => "mul_mod"@,
        }
    }

    /// The builtin's name with the `_builtin` suffix.
    pub open spec fn suffixed_name(self) -> Seq<char> {
        self.name() + "_builtin"@
    }

    /// Position of the builtin in the VM's list.
    pub fn idx(self) -> (r: usize)
        ensures
            r == self.index(),
    {
        match self {
            BuiltinName::Output => 0,
            BuiltinName::RangeCheck => 1,
            BuiltinName::Pedersen => 2,
            BuiltinName::Ecdsa => 3,
            BuiltinName::Keccak => 4,
            BuiltinName::Bitwise => 5,
            BuiltinName::EcOp => 6,
            BuiltinName::Poseidon => 7,
            BuiltinName::SegmentArena => 8,
            BuiltinName::RangeCheck96 => 9,
            BuiltinName::AddMod => 10,
            BuiltinName::MulMod => 11,
        }
    }

    /// The builtin at position `i` of the VM's list.
    pub fn from_index(i: usize) -> (r: BuiltinName)
        requires
            i < N_BUILTINS,
        ensures
            r == BuiltinName::at(i as nat),
            r.index() == i,
    {
        if i == 0 {
            BuiltinName::Output
        } else if i == 1 {
            BuiltinName::RangeCheck
        } else if i == 2 {
            BuiltinName::Pedersen
        } else if i == 3 {
            BuiltinName::Ecdsa
        } else if i == 4 {
            BuiltinName::Keccak
        } else if i == 5 {
            BuiltinName::Bitwise
        } else if i == 6 {
            BuiltinName::EcOp
        } else if i == 7 {
            BuiltinName::Poseidon
        } else if i == 8 {
            BuiltinName::SegmentArena
        } else if i == 9 {
            BuiltinName::RangeCheck96
        } else if i == 10 {
            BuiltinName::AddMod
        } else {
            BuiltinName::MulMod
        }
    }

    /// The builtin's plain name, as the VM writes it.
    pub fn to_str(self) -> (r: &'static str)
        ensures
            r@ == self.name(),
    {
        match self {
            BuiltinName::Output => "output",
            BuiltinName::RangeCheck => "range_check",
            BuiltinName::Pedersen => "pedersen",
            BuiltinName::Ecdsa => "ecdsa",
            BuiltinName::Keccak => "keccak",
            BuiltinName::Bitwise => "bitwise",
            BuiltinName::EcOp => "ec_op",
            BuiltinName::Poseidon => "poseidon",
            BuiltinName::SegmentArena => "segment_arena",
            BuiltinName::RangeCheck96 => "range_check96",
            BuiltinName::AddMod => "add_mod",
            BuiltinName::MulMod => "mul_mod",
        }
    }

    /// The builtin's name with the `_builtin` suffix, as the VM displays it.
    pub fn to_suffixed_string(self) -> (r: String)
        ensures
            r@ == self.suffixed_name(),
    {
        match vm_builtin_display(self.to_str()) {
            Some(s) => s,
            None => {
                proof {
                    assert(false);
                }
                String::new()
            },
        }
    }

    /// No suffixed name is a plain name.
    pub proof fn lemma_suffixed_is_not_plain(self, other: BuiltinName)
        ensures
            self.suffixed_name() != other.name(),
    {
        reveal_strlit("output");
        reveal_strlit("range_check");
        reveal_strlit("pedersen");
        reveal_strlit("ecdsa");
        reveal_strlit("keccak");
        reveal_strlit("bitwise");
        reveal_strlit("ec_op");
        reveal_strlit("poseidon");
        reveal_strlit("segment_arena");
        reveal_strlit("range_check96");
        reveal_strlit("add_mod");
        reveal_strlit("mul_mod");
        reveal_strlit("_builtin");
        if self.suffixed_name() == other.name() {
            assert(self.suffixed_name()[0] == self.name()[0]);
            assert(self.suffixed_name().len() == self.name().len() + 8);
        }
    }

    /// Parses a builtin name: the plain name first, then, for forward compatibility, the name
    /// with the `_builtin` suffix. `None` when neither form names a builtin.
    pub fn parse(s: &str) -> (r: Option<BuiltinName>)
        ensures
            forall|b: BuiltinName| s@ == b.name() ==> r == Some(b),
            forall|b: BuiltinName|
                s@ == b.suffixed_name() && (forall|c: BuiltinName| s@ != c.name()) ==> r == Some(b),
            r matches Some(b) ==> s@ == b.name() || s@ == b.suffixed_name(),
            r is None ==> forall|b: BuiltinName| s@ != b.name() && s@ != b.suffixed_name(),
    {
        match vm_builtin_index(s) {
            Some(i) => Some(BuiltinName::from_index(i)),
            None => match vm_builtin_index_with_suffix(s) {
                Some(i) => Some(BuiltinName::from_index(i)),
                None => None,
            },
        }
    }
}

/// Relies on cairo_vm's `BuiltinName::from_str`: the builtin whose plain name is `s`, as its
/// position in the declaration of `BuiltinName`.
#[verifier::external_body]
fn vm_builtin_index(s: &str) -> (r: Option<usize>)
    ensures
        forall|b: BuiltinName| s@ == b.name() ==> r == Some(b.index() as usize),
        r matches Some(i) ==> i < N_BUILTINS && s@ == BuiltinName::at(i as nat).name(),
        r is None ==> forall|b: BuiltinName| s@ != b.name(),
{
    match cairo_vm::types::builtin_name::BuiltinName::from_str(s) {
        Some(b) => Some(b as usize),
        None => None,
    }
}

/// Relies on cairo_vm's `BuiltinName::from_str_with_suffix`: the builtin whose name with the
/// `_builtin` suffix is `s`, as its position in the declaration of `BuiltinName`.
#[verifier::external_body]
fn vm_builtin_index_with_suffix(s: &str) -> (r: Option<usize>)
    ensures
        forall|b: BuiltinName| s@ == b.suffixed_name() ==> r == Some(b.index() as usize),
        r matches Some(i) ==> i < N_BUILTINS && s@ == BuiltinName::at(i as nat).suffixed_name(),
        r is None ==> forall|b: BuiltinName| s@ != b.suffixed_name(),
{
    match cairo_vm::types::builtin_name::BuiltinName::from_str_with_suffix(s) {
        Some(b) => Some(b as usize),
        None => None,
    }
}

/// Relies on cairo_vm's `BuiltinName::from_str` and its `Display`, which writes the name with
/// the `_builtin` suffix: the displayed name of the builtin whose plain name is `plain`.
#[verifier::external_body]
fn vm_builtin_display(plain: &str) -> (r: Option<String>)
    ensures
        forall|b: BuiltinName| plain@ == b.name() ==> r is Some && r->Some_0@ == b.suffixed_name(),
{
    match cairo_vm::types::builtin_name::BuiltinName::from_str(plain) {
        Some(b) => Some(b.to_string()),
        None => None,
    }
}

} // verus!
