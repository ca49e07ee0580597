use vstd::prelude::*;

use crate::builtins::BuiltinName;
use crate::felt::Felt;

verus! {

/// Identifies a function of a class: derived from the function's name.
#[derive(Clone, Copy, Debug, PartialEq, Eq)]
pub struct EntryPointSelector(pub Felt);

/// Offset of an entry point's code in the bytecode.
#[derive(Clone, Copy, Debug, PartialEq, Eq, Structural, Hash)]
pub struct EntryPointOffset(pub usize);

/// The kinds of entry points of a class.
#[derive(Clone, Copy, Debug, PartialEq, Eq, Structural, Hash)]
pub enum EntryPointType {
    Constructor,
    External,
    L1Handler,
}

/// Something that is found by its selector.
pub trait HasSelector {
    spec fn spec_selector(&self) -> EntryPointSelector;

    fn selector(&self) -> (r: &EntryPointSelector)
        ensures
            *r == self.spec_selector(),
    ;
}

/// An entry point of a class of the first generation.
#[derive(Clone, Copy, Debug, PartialEq, Eq)]
pub struct EntryPointV0 {
    pub selector: EntryPointSelector,
    pub offset: EntryPointOffset,
}

impl HasSelector for EntryPointV0 {
    open spec fn spec_selector(&self) -> EntryPointSelector {
        self.selector
    }

    fn selector(&self) -> (r: &EntryPointSelector) {
        &self.selector
    }
}

/// An entry point of a class of the second generation: its selector, the offset of its code,
/// and the builtins it needs.
#[derive(Debug, PartialEq, Eq)]
pub struct EntryPointV1 {
    pub selector: EntryPointSelector,
    pub offset: EntryPointOffset,
    pub builtins: Vec<BuiltinName>,
}

impl EntryPointV1 {
    /// The pc at which the entry point's code starts.
    pub fn pc(&self) -> (r: usize)
        ensures
            r == self.offset.0,
    {
        self.offset.0
    }
}

impl Clone for EntryPointV1 {
    fn clone(&self) -> (r: EntryPointV1)
        ensures
            r.selector == self.selector,
            r.offset == self.offset,
            r.builtins@ == self.builtins@,
    {
        let builtins = self.builtins.clone();
        proof {
            assert(builtins@ =~= self.builtins@);
        }
        EntryPointV1 { selector: self.selector, offset: self.offset, builtins }
    }
}

impl HasSelector for EntryPointV1 {
    open spec fn spec_selector(&self) -> EntryPointSelector {
        self.selector
    }

    fn selector(&self) -> (r: &EntryPointSelector) {
        &self.selector
    }
}

/// A call into a class: which kind of entry point, and which selector.
#[derive(Clone, Copy, Debug, PartialEq, Eq)]
pub struct CallEntryPoint {
    pub entry_point_type: EntryPointType,
    pub entry_point_selector: EntryPointSelector,
}

/// Errors of finding the entry point that a call names.
#[derive(Clone, Copy, Debug, PartialEq, Eq)]
pub enum PreExecutionError {
    EntryPointNotFound(EntryPointSelector),
    DuplicatedEntryPointSelector { selector: EntryPointSelector, typ: EntryPointType },
}

/// The entry point is found by `selector`.
pub open spec fn selects<EP: HasSelector>(ep: EP, selector: EntryPointSelector) -> bool {
    ep.spec_selector().0@ == selector.0@
}

/// How many entry points of `l` are found by `selector`.
pub open spec fn match_count<EP: HasSelector>(l: Seq<EP>, selector: EntryPointSelector) -> nat
    decreases l.len(),
{
    if l.len() == 0 {
        0
    } else {
        match_count(l.drop_last(), selector) + if selects(l.last(), selector) {
            1nat
        } else {
            0nat
        }
    }
}

/// The entry points of a class, by kind, each kind's in order.
#[derive(Debug, PartialEq, Eq)]
pub struct EntryPointsByType<EP: HasSelector> {
    pub constructor: Vec<EP>,
    pub external: Vec<EP>,
    pub l1_handler: Vec<EP>,
}

impl<EP: HasSelector> EntryPointsByType<EP> {
    /// The entry points of kind `typ`.
    pub open spec fn of_type(&self, typ: EntryPointType) -> Seq<EP> {
        match typ {
            EntryPointType::Constructor => self.constructor@,
            EntryPointType::External => self.external@,
            EntryPointType::L1Handler => self.l1_handler@,
        }
    }

    /// The entry points of kind `typ`.
    pub fn index(&self, typ: EntryPointType) -> (r: &Vec<EP>)
        ensures
            r@ == self.of_type(typ),
    {
        match typ {
            EntryPointType::Constructor => &self.constructor,
            EntryPointType::External => &self.external,
            EntryPointType::L1Handler => &self.l1_handler,
        }
    }
}

impl<EP: HasSelector> Default for EntryPointsByType<EP> {
    fn default() -> (r: EntryPointsByType<EP>)
        ensures
            r.constructor@.len() == 0,
            r.external@.len() == 0,
            r.l1_handler@.len() == 0,
    {
        EntryPointsByType { constructor: Vec::new(), external: Vec::new(), l1_handler: Vec::new() }
    }
}

impl<EP: Clone + HasSelector> EntryPointsByType<EP> {
    /// The one entry point of the call's kind that its selector finds. None found is
    /// `EntryPointNotFound`; more than one is `DuplicatedEntryPointSelector`, with no attempt to
    /// choose among them.
    pub fn get_entry_point(&self, call: &CallEntryPoint) -> (r: Result<EP, PreExecutionError>)
        ensures
            ({
                let l = self.of_type(call.entry_point_type);
                let sel = call.entry_point_selector;
                match r {
                    Ok(ep) => match_count(l, sel) == 1 && exists|i: int|
                        0 <= i < l.len() && selects(l[i], sel) && cloned(l[i], ep),
                    Err(PreExecutionError::EntryPointNotFound(s)) => match_count(l, sel) == 0
                        && s == sel,
                    Err(PreExecutionError::DuplicatedEntryPointSelector { selector, typ }) =>
                        match_count(l, sel) >= 2 && selector == sel && typ
                        == call.entry_point_type,
                }
            }),
    {
        let entry_points_of_same_type = self.index(call.entry_point_type);
        let ghost l = entry_points_of_same_type@;
        let ghost sel = call.entry_point_selector;
        let mut found: usize = 0;
        let mut n_found: usize = 0;
        let mut i: usize = 0;
        while i < entry_points_of_same_type.len()
            invariant
                l == entry_points_of_same_type@,
                l == self.of_type(call.entry_point_type),
                sel == call.entry_point_selector,
                i <= l.len(),
                n_found <= 2,
                n_found == if match_count(l.take(i as int), sel) >= 2 {
                    2
                } else {
                    match_count(l.take(i as int), sel)
                },
                n_found >= 1 ==> found < i && selects(l[found as int], sel),
            decreases l.len() - i,
        {
            proof {
                assert(l.take(i + 1).drop_last() =~= l.take(i as int));
            }
            let ep = &entry_points_of_same_type[i];
            if ep.selector().0 == call.entry_point_selector.0 {
                if n_found == 0 {
                    found = i;
                }
                if n_found < 2 {
                    n_found = n_found + 1;
                }
            }
            i = i + 1;
        }
        proof {
            assert(l.take(i as int) =~= l);
        }
        if n_found == 0 {
            Err(PreExecutionError::EntryPointNotFound(call.entry_point_selector))
        } else if n_found == 1 {
            Ok(entry_points_of_same_type[found].clone())
        } else {
            Err(
                PreExecutionError::DuplicatedEntryPointSelector {
                    selector: call.entry_point_selector,
                    typ: call.entry_point_type,
                },
            )
        }
    }
}

} // verus!
