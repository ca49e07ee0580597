use vstd::prelude::*;

use crate::builtins::BuiltinName;
use crate::felt::Felt;

verus! {

/// Errors of building a program or of converting a class to or from its wire form.
#[derive(Clone, Copy, Debug, PartialEq, Eq, Structural)]
pub enum ProgramError {
    /// A hint stands at a pc past the program's data: the largest hint pc, and the data length.
    InvalidHintPc(usize, usize),
    /// An entry point names a builtin that is unknown in both accepted spellings.
    UnrecognizedBuiltin,
    /// The compiler version is not a semantic version.
    InvalidCompilerVersion,
    /// A hint of the program is missing from the class's table of hints.
    HintNotFound,
}

/// A hint of a compiled class, held as its canonical JSON text.
#[derive(Debug, PartialEq, Eq)]
pub struct Hint(pub String);

impl Clone for Hint {
    fn clone(&self) -> (r: Hint)
        ensures
            r.0@ == self.0@,
    {
        Hint(self.0.clone())
    }
}

/// Each entry of the table of hints is keyed by the hint's own text, and no key repeats.
pub open spec fn table_wf(l: Seq<(String, Hint)>) -> bool {
    &&& forall|k: int| 0 <= k < l.len() ==> l[k].1.0@ == l[k].0@
    &&& forall|a: int, b: int| 0 <= a < b < l.len() ==> l[a].0@ != l[b].0@
}

/// The table of hints has an entry for the text `t`.
pub open spec fn table_has(l: Seq<(String, Hint)>, t: Seq<char>) -> bool {
    exists|k: int| 0 <= k < l.len() && l[k].0@ == t
}

/// The hints of a class by their canonical text, for the hint interpreter to find a hint by its
/// text. Each entry's key is its hint's text, and no key repeats.
#[derive(Debug, PartialEq, Eq)]
pub struct HintTable {
    entries: Vec<(String, Hint)>,
}

impl View for HintTable {
    type V = Seq<(String, Hint)>;

    closed spec fn view(&self) -> Seq<(String, Hint)> {
        self.entries@
    }
}

impl HintTable {
    #[verifier::type_invariant]
    closed spec fn inv(self) -> bool {
        table_wf(self.entries@)
    }

    /// An empty table.
    pub fn new() -> (r: HintTable)
        ensures
            r@.len() == 0,
            table_wf(r@),
    {
        HintTable { entries: Vec::new() }
    }

    /// The number of entries.
    pub fn len(&self) -> (r: usize)
        ensures
            r == self@.len(),
    {
        self.entries.len()
    }

    /// The table with `hint` added under its text, unless its text is there already.
    pub fn insert(self, hint: &Hint) -> (r: HintTable)
        ensures
            table_wf(r@),
            table_has(r@, hint.0@),
            forall|t: Seq<char>| table_has(self@, t) ==> table_has(r@, t),
            forall|t: Seq<char>| table_has(r@, t) ==> table_has(self@, t) || t == hint.0@,
    {
        proof {
            use_type_invariant(&self);
        }
        let ghost start = self@;
        let HintTable { entries } = self;
        let mut table = entries;
        let ghost before = table@;
        let mut k: usize = 0;
        while k < table.len()
            invariant
                k <= table@.len(),
                table@ == before,
                before == start,
                start == self@,
                table_wf(table@),
                forall|m: int| 0 <= m < k ==> table@[m].0@ != hint.0@,
            decreases table@.len() - k,
        {
            if table[k].0 == hint.0 {
                assert(table@[k as int].0@ == hint.0@);
                return HintTable { entries: table };
            }
            k = k + 1;
        }
        table.push((hint.0.clone(), hint.clone()));
        proof {
            assert(table@[table@.len() - 1].0@ == hint.0@);
            assert forall|t: Seq<char>| table_has(before, t) implies table_has(table@, t) by {
                let m = choose|m: int| 0 <= m < before.len() && before[m].0@ == t;
                assert(table@[m] == before[m]);
            }
            assert forall|t: Seq<char>| table_has(table@, t) implies table_has(before, t) || t
                == hint.0@ by {
                let m = choose|m: int| 0 <= m < table@.len() && table@[m].0@ == t;
                if m < before.len() {
                    assert(before[m] == table@[m]);
                }
            }
            assert forall|a: int, b: int| 0 <= a < b < table@.len() implies table@[a].0@
                != table@[b].0@ by {
                if b == table@.len() - 1 {
                    assert(table@[a] == before[a]);
                } else {
                    assert(table@[a] == before[a]);
                    assert(table@[b] == before[b]);
                }
            }
        }
        HintTable { entries: table }
    }

    /// The hint whose text is `code`, if the table has it.
    pub fn lookup(&self, code: &String) -> (r: Option<Hint>)
        ensures
            r is Some <==> table_has(self@, code@),
            r matches Some(h) ==> h.0@ == code@,
            table_wf(self@),
    {
        proof {
            use_type_invariant(self);
        }
        let mut k: usize = 0;
        while k < self.entries.len()
            invariant
                k <= self.entries@.len(),
                table_wf(self.entries@),
                forall|m: int| 0 <= m < k ==> self.entries@[m].0@ != code@,
            decreases self.entries@.len() - k,
        {
            if self.entries[k].0 == *code {
                let h = self.entries[k].1.clone();
                assert(self.entries@[k as int].0@ == code@);
                return Some(h);
            }
            k = k + 1;
        }
        None
    }
}

/// A hint as the VM's program holds it: its canonical text and the scopes it runs in (none for
/// compiled classes).
#[derive(Debug, PartialEq, Eq)]
pub struct HintParams {
    pub code: String,
    pub accessible_scopes: Vec<String>,
}

/// The codes of a list of hints.
pub open spec fn codes(l: Seq<HintParams>) -> Seq<Seq<char>> {
    Seq::new(l.len(), |j: int| l[j].code@)
}

/// The hints of a program, by pc: each pc with the codes of its hints.
pub open spec fn hint_codes(h: Seq<(usize, Vec<HintParams>)>) -> Seq<(usize, Seq<Seq<char>>)> {
    Seq::new(h.len(), |i: int| (h[i].0, codes(h[i].1@)))
}

/// The largest pc of a list of hint groups (zero when there is none).
pub open spec fn max_pc<T>(h: Seq<(usize, T)>) -> usize
    decreases h.len(),
{
    if h.len() == 0 {
        0
    } else {
        let m = max_pc(h.drop_last());
        if h.last().0 > m {
            h.last().0
        } else {
            m
        }
    }
}

/// Every hint group stands at a pc inside data of length `len`.
pub open spec fn pcs_below<T>(h: Seq<(usize, T)>, len: nat) -> bool {
    forall|i: int| 0 <= i < h.len() ==> (h[i].0 as nat) < len
}

proof fn lemma_max_pc<T>(h: Seq<(usize, T)>)
    ensures
        forall|i: int| 0 <= i < h.len() ==> h[i].0 <= max_pc(h),
        h.len() > 0 ==> exists|i: int| 0 <= i < h.len() && h[i].0 == max_pc(h),
    decreases h.len(),
{
    if h.len() > 0 {
        lemma_max_pc(h.drop_last());
        if h.len() > 1 && h.last().0 <= max_pc(h.drop_last()) {
            let i = choose|i: int| 0 <= i < h.len() - 1 && h.drop_last()[i].0 == max_pc(h.drop_last());
            assert(h[i].0 == max_pc(h));
        } else {
            if h.len() == 1 {
                assert(max_pc(h.drop_last()) == 0);
            }
            assert(h[h.len() - 1].0 == max_pc(h));
        }
        assert forall|i: int| 0 <= i < h.len() implies h[i].0 <= max_pc(h) by {
            if i < h.len() - 1 {
                assert(h[i] == h.drop_last()[i]);
            }
        }
    }
}

/// A program the VM runs: the flat bytecode and, by pc, the hints that run before the
/// instruction there.
#[derive(Debug, PartialEq, Eq)]
pub struct Program {
    builtins: Vec<BuiltinName>,
    data: Vec<Felt>,
    hints: Vec<(usize, Vec<HintParams>)>,
}

impl Program {
    /// The builtins the program uses.
    pub closed spec fn builtins_spec(&self) -> Seq<BuiltinName> {
        self.builtins@
    }

    /// The bytecode.
    pub closed spec fn data_spec(&self) -> Seq<Felt> {
        self.data@
    }

    /// The hints by pc, as given to `new`.
    pub closed spec fn hints_spec(&self) -> Seq<(usize, Vec<HintParams>)> {
        self.hints@
    }

    /// A program of the given bytecode and hints. Fails with `InvalidHintPc` when a hint stands
    /// at a pc past the bytecode.
    pub fn new(
        builtins: Vec<BuiltinName>,
        data: Vec<Felt>,
        hints: Vec<(usize, Vec<HintParams>)>,
    ) -> (r: Result<
        Program,
        ProgramError,
    >)
        ensures
            match r {
                Ok(p) => pcs_below(hints@, data@.len()) && p.builtins_spec() == builtins@
                    && p.data_spec() == data@ && p.hints_spec() == hints@,
                Err(e) => !pcs_below(hints@, data@.len()) && e == ProgramError::InvalidHintPc(
                    max_pc(hints@),
                    data@.len() as usize,
                ),
            },
    {
        let mut max: usize = 0;
        let mut i: usize = 0;
        while i < hints.len()
            invariant
                i <= hints@.len(),
                max == max_pc(hints@.take(i as int)),
            decreases hints@.len() - i,
        {
            proof {
                assert(hints@.take(i + 1).drop_last() =~= hints@.take(i as int));
            }
            if hints[i].0 > max {
                max = hints[i].0;
            }
            i = i + 1;
        }
        proof {
            assert(hints@.take(i as int) =~= hints@);
            lemma_max_pc(hints@);
        }
        if hints.len() > 0 && max >= data.len() {
            Err(ProgramError::InvalidHintPc(max, data.len()))
        } else {
            Ok(Program { builtins, data, hints })
        }
    }

    /// The number of builtins the program uses.
    pub fn builtins_len(&self) -> (r: usize)
        ensures
            r == self.builtins_spec().len(),
    {
        self.builtins.len()
    }

    /// The number of words of bytecode.
    pub fn data_len(&self) -> (r: usize)
        ensures
            r == self.data_spec().len(),
    {
        self.data.len()
    }

    /// The bytecode.
    pub fn data(&self) -> (r: &Vec<Felt>)
        ensures
            r@ == self.data_spec(),
    {
        &self.data
    }

    /// The hints by pc.
    pub fn hints(&self) -> (r: &Vec<(usize, Vec<HintParams>)>)
        ensures
            r@ == self.hints_spec(),
    {
        &self.hints
    }

    /// The prime of the field, in hexadecimal with a `0x` prefix.
    pub fn prime(&self) -> (r: &'static str)
        ensures
            r@ == "0x800000000000011000000000000000000000000000000000000000000000001"@,
    {
        "0x800000000000011000000000000000000000000000000000000000000000001"
    }
}

impl Default for Program {
    fn default() -> (r: Program)
        ensures
            r.builtins_spec().len() == 0,
            r.data_spec().len() == 0,
            r.hints_spec().len() == 0,
    {
        Program { builtins: Vec::new(), data: Vec::new(), hints: Vec::new() }
    }
}

} // verus!
