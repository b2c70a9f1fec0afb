//! Storage allocation: replaces every pseudo-register with a stack slot,
//! one fixed-size slot per distinct identifier, offsets assigned in
//! first-seen order and strictly decreasing.

use vstd::prelude::*;

use crate::parse::codegen::clone_instruction;
use crate::parse::codegen::{
    all_printable, printable_instruction, printable_operand, FunctionDefinition, Instruction,
    Operand, ProgramDefinition, TMP_VAR_BYTE_LEN,
};

verus! {

/// The identifier-to-offset assignments made so far, in first-seen order.
pub struct AllocationMap {
    entries: Vec<(String, i8)>,
}

impl View for AllocationMap {
    type V = Seq<(Seq<char>, int)>;

    closed spec fn view(&self) -> Seq<(Seq<char>, int)> {
        self.entries@.map_values(|p: (String, i8)| (p.0@, p.1 as int))
    }
}

/// The offset assigned to `k`, if any: the first entry with that key.
pub open spec fn spec_lookup(m: Seq<(Seq<char>, int)>, k: Seq<char>) -> Option<int>
    decreases m.len(),
{
    if m.len() == 0 {
        None
    } else if m[0].0 == k {
        Some(m[0].1)
    } else {
        spec_lookup(m.drop_first(), k)
    }
}

/// Looking a key up after appending an entry: the appended entry answers
/// only where the key is new.
pub proof fn lemma_lookup_push(m: Seq<(Seq<char>, int)>, k: Seq<char>, v: int, q: Seq<char>)
    ensures
        spec_lookup(m.push((k, v)), q) == (if q == k && spec_lookup(m, k) is None {
            Some(v)
        } else {
            spec_lookup(m, q)
        }),
    decreases m.len(),
{
    if m.len() == 0 {
        assert(m.push((k, v)).drop_first() =~= Seq::<(Seq<char>, int)>::empty());
    } else {
        assert(m.push((k, v)).drop_first() =~= m.drop_first().push((k, v)));
        lemma_lookup_push(m.drop_first(), k, v, q);
    }
}

/// A key looks up to nothing exactly when no entry carries it.
pub proof fn lemma_lookup_none(m: Seq<(Seq<char>, int)>, k: Seq<char>)
    ensures
        (spec_lookup(m, k) is None) == (forall|i: int| 0 <= i < m.len() ==> (#[trigger] m[i]).0 != k),
    decreases m.len(),
{
    if m.len() > 0 {
        lemma_lookup_none(m.drop_first(), k);
        assert(forall|i: int|
            1 <= i < m.len() ==> (#[trigger] m[i]) == m.drop_first()[i - 1]);
    }
}

impl AllocationMap {
    /// An empty assignment.
    pub fn new() -> (r: AllocationMap)
        ensures
            r@ =~= Seq::<(Seq<char>, int)>::empty(),
    {
        AllocationMap { entries: Vec::new() }
    }

    /// How many identifiers have been assigned a slot.
    pub fn len(&self) -> (r: usize)
        ensures
            r == self@.len(),
    {
        self.entries.len()
    }

    /// The offset assigned to `key`, if any.
    pub fn get(&self, key: &String) -> (r: Option<i8>)
        ensures
            match r {
                Some(v) => spec_lookup(self@, key@) == Some(v as int),
                None => spec_lookup(self@, key@) is None,
            },
    {
        let n = self.entries.len();
        let mut i: usize = 0;
        proof {
            assert(self@.skip(0) =~= self@);
        }
        while i < n
            invariant
                n == self.entries.len(),
                i <= n,
                spec_lookup(self@, key@) == spec_lookup(self@.skip(i as int), key@),
            decreases n - i,
        {
            proof {
                assert(self@.skip(i as int)[0] == self@[i as int]);
                assert(self@.skip(i as int).drop_first() =~= self@.skip(i + 1));
            }
            let entry = &self.entries[i];
            if entry.0.eq(key) {
                return Some(entry.1);
            }
            i = i + 1;
        }
        proof {
            assert(self@.skip(n as int) =~= Seq::<(Seq<char>, int)>::empty());
        }
        None
    }

    /// Records the offset for a newly seen identifier.
    pub fn insert(&mut self, key: String, off: i8)
        ensures
            final(self)@ =~= old(self)@.push((key@, off as int)),
    {
        self.entries.push((key, off));
    }
}

/// One allocation step for an operand: a pseudo-register resolves to its
/// assigned slot, or to a fresh slot one slot size below the last; any
/// other operand passes through unchanged.
pub open spec fn alloc_operand(node: Operand, m: Seq<(Seq<char>, int)>, off: int) -> (
    Operand,
    Seq<(Seq<char>, int)>,
    int,
) {
    match node {
        Operand::PseudoRegister(id) => match spec_lookup(m, id@) {
            Some(v) => (Operand::Stack(v as i8), m, off),
            None => (Operand::Stack((off - 4) as i8), m.push((id@, off - 4)), off - 4),
        },
        _ => (node, m, off),
    }
}

/// One allocation step for an instruction: its operands in order.
pub open spec fn alloc_instruction(node: Instruction, m: Seq<(Seq<char>, int)>, off: int) -> (
    Instruction,
    Seq<(Seq<char>, int)>,
    int,
)
    recommends
        !(node is AllocateStack),
{
    match node {
        Instruction::Mov { src, dst } => {
            let (s2, m1, o1) = alloc_operand(src, m, off);
            let (d2, m2, o2) = alloc_operand(dst, m1, o1);
            (Instruction::Mov { src: s2, dst: d2 }, m2, o2)
        },
        Instruction::Unary { op, dst } => {
            let (d2, m1, o1) = alloc_operand(dst, m, off);
            (Instruction::Unary { op, dst: d2 }, m1, o1)
        },
        Instruction::Binary { op, src, dst } => {
            let (s2, m1, o1) = alloc_operand(src, m, off);
            let (d2, m2, o2) = alloc_operand(dst, m1, o1);
            (Instruction::Binary { op, src: s2, dst: d2 }, m2, o2)
        },
        Instruction::Idiv(operand) => {
            let (p2, m1, o1) = alloc_operand(operand, m, off);
            (Instruction::Idiv(p2), m1, o1)
        },
        Instruction::Ret => (Instruction::Ret, m, off),
        Instruction::Cdq => (Instruction::Cdq, m, off),
        Instruction::AllocateStack(_) => arbitrary(),
    }
}

pub open spec fn no_allocate_stack(s: Seq<Instruction>) -> bool {
    forall|k: int| 0 <= k < s.len() ==> !((#[trigger] s[k]) is AllocateStack)
}

/// The allocation pass over an instruction sequence.
pub open spec fn alloc_instructions(s: Seq<Instruction>, m: Seq<(Seq<char>, int)>, off: int) -> (
    Seq<Instruction>,
    Seq<(Seq<char>, int)>,
    int,
)
    recommends
        no_allocate_stack(s),
    decreases s.len(),
{
    if s.len() == 0 {
        (seq![], m, off)
    } else {
        let (i2, m1, o1) = alloc_instruction(s[0], m, off);
        let (rest, m2, o2) = alloc_instructions(s.drop_first(), m1, o1);
        (seq![i2] + rest, m2, o2)
    }
}

/// The offset never grows within one operand step.
pub proof fn lemma_alloc_operand_monotonic(node: Operand, m: Seq<(Seq<char>, int)>, off: int)
    ensures
        alloc_operand(node, m, off).2 <= off,
{
}

/// The offset never grows within one instruction step.
pub proof fn lemma_alloc_instruction_monotonic(node: Instruction, m: Seq<(Seq<char>, int)>, off: int)
    ensures
        alloc_instruction(node, m, off).2 <= off || node is AllocateStack,
{
}

/// The offset never grows across the pass.
pub proof fn lemma_alloc_monotonic(s: Seq<Instruction>, m: Seq<(Seq<char>, int)>, off: int)
    requires
        no_allocate_stack(s),
    ensures
        alloc_instructions(s, m, off).2 <= off,
    decreases s.len(),
{
    if s.len() > 0 {
        let (i2, m1, o1) = alloc_instruction(s[0], m, off);
        lemma_alloc_instruction_monotonic(s[0], m, off);
        assert(forall|k: int|
            0 <= k < s.drop_first().len() ==> !((#[trigger] s.drop_first()[k]) is AllocateStack));
        lemma_alloc_monotonic(s.drop_first(), m1, o1);
    }
}

/// Idempotent allocation: resolving the same pseudo-register twice in one
/// run yields the same stack slot, and the second resolution changes
/// nothing.
pub proof fn lemma_allocation_idempotent(node: Operand, m: Seq<(Seq<char>, int)>, off: int)
    requires
        node is PseudoRegister,
    ensures
        ({
            let (r1, m1, o1) = alloc_operand(node, m, off);
            let (r2, m2, o2) = alloc_operand(node, m1, o1);
            r2 == r1 && m2 == m1 && o2 == o1
        }),
{
    let id = node->PseudoRegister_0;
    match spec_lookup(m, id@) {
        Some(_) => {},
        None => {
            lemma_lookup_push(m, id@, off - 4, id@);
        },
    }
}

/// An assignment, once made, survives every later allocation step: the
/// same identifier resolves to the same slot anywhere later in the run.
pub proof fn lemma_assignment_stable_operand(node: Operand, m: Seq<(Seq<char>, int)>, off: int, k: Seq<char>)
    requires
        spec_lookup(m, k) is Some,
    ensures
        spec_lookup(alloc_operand(node, m, off).1, k) == spec_lookup(m, k),
{
    match node {
        Operand::PseudoRegister(id) => {
            match spec_lookup(m, id@) {
                Some(_) => {},
                None => {
                    lemma_lookup_push(m, id@, off - 4, k);
                },
            }
        },
        _ => {},
    }
}

/// An assignment survives one instruction step.
pub proof fn lemma_assignment_stable_instruction(node: Instruction, m: Seq<(Seq<char>, int)>, off: int, k: Seq<char>)
    requires
        !(node is AllocateStack),
        spec_lookup(m, k) is Some,
    ensures
        spec_lookup(alloc_instruction(node, m, off).1, k) == spec_lookup(m, k),
{
    match node {
        Instruction::Mov { src, dst } => {
            let (s2, m1, o1) = alloc_operand(src, m, off);
            lemma_assignment_stable_operand(src, m, off, k);
            lemma_assignment_stable_operand(dst, m1, o1, k);
        },
        Instruction::Unary { op, dst } => {
            lemma_assignment_stable_operand(dst, m, off, k);
        },
        Instruction::Binary { op, src, dst } => {
            let (s2, m1, o1) = alloc_operand(src, m, off);
            lemma_assignment_stable_operand(src, m, off, k);
            lemma_assignment_stable_operand(dst, m1, o1, k);
        },
        Instruction::Idiv(operand) => {
            lemma_assignment_stable_operand(operand, m, off, k);
        },
        _ => {},
    }
}

/// Idempotent allocation across a whole run: an identifier's slot, once
/// assigned, is what every later resolution of that identifier yields.
pub proof fn lemma_assignment_stable(s: Seq<Instruction>, m: Seq<(Seq<char>, int)>, off: int, k: Seq<char>)
    requires
        no_allocate_stack(s),
        spec_lookup(m, k) is Some,
    ensures
        spec_lookup(alloc_instructions(s, m, off).1, k) == spec_lookup(m, k),
    decreases s.len(),
{
    if s.len() > 0 {
        let (i2, m1, o1) = alloc_instruction(s[0], m, off);
        lemma_assignment_stable_instruction(s[0], m, off, k);
        assert(forall|j: int|
            0 <= j < s.drop_first().len() ==> !((#[trigger] s.drop_first()[j]) is AllocateStack));
        lemma_assignment_stable(s.drop_first(), m1, o1, k);
    }
}

/// The allocator resolves every operand to concrete storage: no
/// pseudo-register survives one operand step.
pub proof fn lemma_alloc_operand_printable(node: Operand, m: Seq<(Seq<char>, int)>, off: int)
    ensures
        printable_operand(alloc_operand(node, m, off).0),
{
}

/// No pseudo-register survives one instruction step.
pub proof fn lemma_alloc_instruction_printable(node: Instruction, m: Seq<(Seq<char>, int)>, off: int)
    requires
        !(node is AllocateStack),
    ensures
        printable_instruction(alloc_instruction(node, m, off).0),
{
    match node {
        Instruction::Mov { src, dst } => {
            let (s2, m1, o1) = alloc_operand(src, m, off);
            lemma_alloc_operand_printable(src, m, off);
            lemma_alloc_operand_printable(dst, m1, o1);
        },
        Instruction::Unary { op, dst } => {
            lemma_alloc_operand_printable(dst, m, off);
        },
        Instruction::Binary { op, src, dst } => {
            let (s2, m1, o1) = alloc_operand(src, m, off);
            lemma_alloc_operand_printable(src, m, off);
            lemma_alloc_operand_printable(dst, m1, o1);
        },
        Instruction::Idiv(operand) => {
            lemma_alloc_operand_printable(operand, m, off);
        },
        _ => {},
    }
}

/// No pseudo-register survives the allocation pass: its whole output is
/// fit for the printer.
pub proof fn lemma_alloc_printable(s: Seq<Instruction>, m: Seq<(Seq<char>, int)>, off: int)
    requires
        no_allocate_stack(s),
    ensures
        all_printable(alloc_instructions(s, m, off).0),
    decreases s.len(),
{
    if s.len() > 0 {
        let (i2, m1, o1) = alloc_instruction(s[0], m, off);
        lemma_alloc_instruction_printable(s[0], m, off);
        assert(forall|k: int|
            0 <= k < s.drop_first().len() ==> !((#[trigger] s.drop_first()[k]) is AllocateStack));
        lemma_alloc_printable(s.drop_first(), m1, o1);
        let rest = alloc_instructions(s.drop_first(), m1, o1).0;
        assert forall|k: int|
            0 <= k < alloc_instructions(s, m, off).0.len() implies printable_instruction(
            #[trigger] alloc_instructions(s, m, off).0[k],
        ) by {
            if k == 0 {
                assert(alloc_instructions(s, m, off).0[k] == i2);
            } else {
                assert(alloc_instructions(s, m, off).0[k] == rest[k - 1]);
            }
        }
    }
}

/// A successful lookup names one entry of the assignment.
pub proof fn lemma_lookup_index(m: Seq<(Seq<char>, int)>, k: Seq<char>)
    requires
        spec_lookup(m, k) is Some,
    ensures
        exists|i: int|
            0 <= i < m.len() && (#[trigger] m[i]).0 == k && m[i].1 == spec_lookup(m, k)->Some_0,
    decreases m.len(),
{
    if m.len() > 0 && m[0].0 != k {
        lemma_lookup_index(m.drop_first(), k);
        let i = choose|i: int|
            0 <= i < m.drop_first().len() && (#[trigger] m.drop_first()[i]).0 == k
                && m.drop_first()[i].1 == spec_lookup(m.drop_first(), k)->Some_0;
        assert(m[i + 1] == m.drop_first()[i]);
    }
}

/// Uniqueness across a whole run from the empty assignment: two distinct
/// identifiers never resolve to the same stack slot.
pub proof fn lemma_allocation_injective(s: Seq<Instruction>, k1: Seq<char>, k2: Seq<char>)
    requires
        no_allocate_stack(s),
        k1 != k2,
    ensures
        ({
            let (r, m2, off2) = alloc_instructions(s, Seq::empty(), 0);
            (spec_lookup(m2, k1) is Some && spec_lookup(m2, k2) is Some) ==> spec_lookup(m2, k1)
                != spec_lookup(m2, k2)
        }),
{
    assert(wf_alloc(Seq::empty(), 0, 0));
    lemma_alloc_wf(s, Seq::empty(), 0, 0);
    let (r, m2, off2) = alloc_instructions(s, Seq::empty(), 0);
    if spec_lookup(m2, k1) is Some && spec_lookup(m2, k2) is Some {
        lemma_lookup_index(m2, k1);
        lemma_lookup_index(m2, k2);
        let i1 = choose|i: int|
            0 <= i < m2.len() && (#[trigger] m2[i]).0 == k1 && m2[i].1 == spec_lookup(m2, k1)->Some_0;
        let i2 = choose|i: int|
            0 <= i < m2.len() && (#[trigger] m2[i]).0 == k2 && m2[i].1 == spec_lookup(m2, k2)->Some_0;
        lemma_allocation_unique(m2, 0, off2, i1, i2);
    }
}

/// Well-formed allocation state for a pass that started at `off0`: the
/// running offset is one slot below the last assigned offset, offsets were
/// assigned in first-seen order, one slot apart, and no identifier appears
/// twice.
pub open spec fn wf_alloc(m: Seq<(Seq<char>, int)>, off0: int, off: int) -> bool {
    &&& off == off0 - 4 * m.len()
    &&& (forall|i: int| 0 <= i < m.len() ==> (#[trigger] m[i]).1 == off0 - 4 * (i + 1))
    &&& (forall|i: int, j: int| 0 <= i < j < m.len() ==> m[i].0 != m[j].0)
}

/// Each operand step preserves well-formedness.
pub proof fn lemma_alloc_operand_wf(node: Operand, m: Seq<(Seq<char>, int)>, off0: int, off: int)
    ensures
        wf_alloc(m, off0, off) ==> wf_alloc(
            alloc_operand(node, m, off).1,
            off0,
            alloc_operand(node, m, off).2,
        ),
{
    if wf_alloc(m, off0, off) {
        match node {
            Operand::PseudoRegister(id) => {
                match spec_lookup(m, id@) {
                    Some(_) => {},
                    None => {
                        lemma_lookup_none(m, id@);
                        let m1 = m.push((id@, off - 4));
                        assert(forall|i: int|
                            0 <= i < m.len() ==> (#[trigger] m1[i]) == m[i]);
                        assert(m1[m.len() as int].1 == off0 - 4 * (m.len() + 1));
                    },
                }
            },
            _ => {},
        }
    }
}

/// Each instruction step preserves well-formedness.
pub proof fn lemma_alloc_instruction_wf(node: Instruction, m: Seq<(Seq<char>, int)>, off0: int, off: int)
    requires
        !(node is AllocateStack),
    ensures
        wf_alloc(m, off0, off) ==> wf_alloc(
            alloc_instruction(node, m, off).1,
            off0,
            alloc_instruction(node, m, off).2,
        ),
{
    match node {
        Instruction::Mov { src, dst } => {
            let (s2, m1, o1) = alloc_operand(src, m, off);
            lemma_alloc_operand_wf(src, m, off0, off);
            lemma_alloc_operand_wf(dst, m1, off0, o1);
        },
        Instruction::Unary { op, dst } => {
            lemma_alloc_operand_wf(dst, m, off0, off);
        },
        Instruction::Binary { op, src, dst } => {
            let (s2, m1, o1) = alloc_operand(src, m, off);
            lemma_alloc_operand_wf(src, m, off0, off);
            lemma_alloc_operand_wf(dst, m1, off0, o1);
        },
        Instruction::Idiv(operand) => {
            lemma_alloc_operand_wf(operand, m, off0, off);
        },
        _ => {},
    }
}

/// The whole pass preserves well-formedness.
pub proof fn lemma_alloc_wf(s: Seq<Instruction>, m: Seq<(Seq<char>, int)>, off0: int, off: int)
    requires
        no_allocate_stack(s),
        wf_alloc(m, off0, off),
    ensures
        wf_alloc(alloc_instructions(s, m, off).1, off0, alloc_instructions(s, m, off).2),
    decreases s.len(),
{
    if s.len() > 0 {
        let (i2, m1, o1) = alloc_instruction(s[0], m, off);
        lemma_alloc_instruction_wf(s[0], m, off0, off);
        assert(forall|k: int|
            0 <= k < s.drop_first().len() ==> !((#[trigger] s.drop_first()[k]) is AllocateStack));
        lemma_alloc_wf(s.drop_first(), m1, off0, o1);
    }
}

/// Uniqueness: in a well-formed state, distinct identifiers hold distinct
/// offsets.
pub proof fn lemma_allocation_unique(m: Seq<(Seq<char>, int)>, off0: int, off: int, i: int, j: int)
    requires
        wf_alloc(m, off0, off),
        0 <= i < m.len(),
        0 <= j < m.len(),
        i != j,
    ensures
        m[i].0 != m[j].0,
        m[i].1 != m[j].1,
{
}

/// The identifiers of the pseudo-register operands of an instruction.
pub open spec fn instruction_pseudo_ids(node: Instruction) -> Set<Seq<char>> {
    match node {
        Instruction::Mov { src, dst } => operand_pseudo_ids(src) + operand_pseudo_ids(dst),
        Instruction::Unary { op, dst } => operand_pseudo_ids(dst),
        Instruction::Binary { op, src, dst } => operand_pseudo_ids(src) + operand_pseudo_ids(dst),
        Instruction::Idiv(operand) => operand_pseudo_ids(operand),
        _ => Set::empty(),
    }
}

pub open spec fn operand_pseudo_ids(node: Operand) -> Set<Seq<char>> {
    match node {
        Operand::PseudoRegister(id) => Set::empty().insert(id@),
        _ => Set::empty(),
    }
}

/// The identifiers of all pseudo-register operands in a sequence.
pub open spec fn pseudo_ids(s: Seq<Instruction>) -> Set<Seq<char>>
    decreases s.len(),
{
    if s.len() == 0 {
        Set::empty()
    } else {
        instruction_pseudo_ids(s[0]) + pseudo_ids(s.drop_first())
    }
}

/// The identifiers assigned so far.
pub open spec fn assigned_ids(m: Seq<(Seq<char>, int)>) -> Set<Seq<char>>
    decreases m.len(),
{
    if m.len() == 0 {
        Set::empty()
    } else {
        assigned_ids(m.drop_last()).insert(m.last().0)
    }
}

/// A key is assigned exactly when it looks up to something.
pub proof fn lemma_assigned_lookup(m: Seq<(Seq<char>, int)>, k: Seq<char>)
    ensures
        assigned_ids(m).contains(k) == (spec_lookup(m, k) is Some),
    decreases m.len(),
{
    lemma_lookup_none(m, k);
    if m.len() > 0 {
        lemma_assigned_lookup(m.drop_last(), k);
        lemma_lookup_none(m.drop_last(), k);
        assert(forall|i: int|
            0 <= i < m.len() - 1 ==> (#[trigger] m[i]) == m.drop_last()[i]);
        assert(m[m.len() - 1] == m.last());
    }
}

/// One operand step: the assigned identifiers grow by exactly the
/// operand's pseudo-register identifiers.
pub proof fn lemma_alloc_operand_ids(node: Operand, m: Seq<(Seq<char>, int)>, off: int)
    ensures
        assigned_ids(alloc_operand(node, m, off).1) =~= assigned_ids(m) + operand_pseudo_ids(node),
{
    match node {
        Operand::PseudoRegister(id) => {
            match spec_lookup(m, id@) {
                Some(_) => {
                    lemma_assigned_lookup(m, id@);
                },
                None => {
                    let m1 = m.push((id@, off - 4));
                    assert(m1.drop_last() =~= m);
                },
            }
        },
        _ => {},
    }
}

/// One instruction step: the assigned identifiers grow by exactly the
/// instruction's pseudo-register identifiers.
pub proof fn lemma_alloc_instruction_ids(node: Instruction, m: Seq<(Seq<char>, int)>, off: int)
    requires
        !(node is AllocateStack),
    ensures
        assigned_ids(alloc_instruction(node, m, off).1) =~= assigned_ids(m)
            + instruction_pseudo_ids(node),
{
    match node {
        Instruction::Mov { src, dst } => {
            let (s2, m1, o1) = alloc_operand(src, m, off);
            lemma_alloc_operand_ids(src, m, off);
            lemma_alloc_operand_ids(dst, m1, o1);
        },
        Instruction::Unary { op, dst } => {
            lemma_alloc_operand_ids(dst, m, off);
        },
        Instruction::Binary { op, src, dst } => {
            let (s2, m1, o1) = alloc_operand(src, m, off);
            lemma_alloc_operand_ids(src, m, off);
            lemma_alloc_operand_ids(dst, m1, o1);
        },
        Instruction::Idiv(operand) => {
            lemma_alloc_operand_ids(operand, m, off);
        },
        _ => {},
    }
}

/// The whole pass: the assigned identifiers grow by exactly the distinct
/// pseudo-register identifiers of the input.
pub proof fn lemma_alloc_ids(s: Seq<Instruction>, m: Seq<(Seq<char>, int)>, off: int)
    requires
        no_allocate_stack(s),
    ensures
        assigned_ids(alloc_instructions(s, m, off).1) =~= assigned_ids(m) + pseudo_ids(s),
    decreases s.len(),
{
    if s.len() > 0 {
        let (i2, m1, o1) = alloc_instruction(s[0], m, off);
        lemma_alloc_instruction_ids(s[0], m, off);
        assert(forall|k: int|
            0 <= k < s.drop_first().len() ==> !((#[trigger] s.drop_first()[k]) is AllocateStack));
        lemma_alloc_ids(s.drop_first(), m1, o1);
    }
}

/// With no identifier entered twice, the assignment holds exactly one
/// entry per assigned identifier.
pub proof fn lemma_assigned_len(m: Seq<(Seq<char>, int)>)
    requires
        forall|i: int, j: int| 0 <= i < j < m.len() ==> m[i].0 != m[j].0,
    ensures
        assigned_ids(m).finite(),
        assigned_ids(m).len() == m.len(),
    decreases m.len(),
{
    broadcast use vstd::set::axiom_set_insert_len;

    if m.len() > 0 {
        let pre = m.drop_last();
        assert(forall|i: int| 0 <= i < pre.len() ==> pre[i] == m[i]);
        lemma_assigned_len(pre);
        lemma_assigned_lookup(pre, m.last().0);
        lemma_lookup_none(pre, m.last().0);
        assert(!assigned_ids(pre).contains(m.last().0));
    }
}

/// Frame-size law: a pass over a whole function, started from the empty
/// assignment at offset zero, assigns exactly the distinct
/// pseudo-register identifiers of the input, no identifier twice, and
/// ends one slot size below zero for each of them: the frame size is the
/// slot size times the number of distinct temporaries.
pub proof fn lemma_frame_size(s: Seq<Instruction>)
    requires
        no_allocate_stack(s),
    ensures
        ({
            let (r, m2, off2) = alloc_instructions(s, Seq::empty(), 0);
            &&& assigned_ids(m2) =~= pseudo_ids(s)
            &&& (forall|i: int, j: int| 0 <= i < j < m2.len() ==> m2[i].0 != m2[j].0)
            &&& pseudo_ids(s).finite()
            &&& -off2 == 4 * pseudo_ids(s).len()
        }),
{
    assert(wf_alloc(Seq::empty(), 0, 0));
    lemma_alloc_wf(s, Seq::empty(), 0, 0);
    lemma_alloc_ids(s, Seq::empty(), 0);
    let (r, m2, off2) = alloc_instructions(s, Seq::empty(), 0);
    lemma_assigned_len(m2);
    assert(assigned_ids(m2) =~= pseudo_ids(s));
    assert(pseudo_ids(s).len() == m2.len());
}

/// Resolves one operand against the running assignment.
pub fn parse_operand(node: Operand, map: &mut AllocationMap, offset: &mut i8) -> (r: Operand)
    requires
        (match node {
            Operand::PseudoRegister(id) => spec_lookup(old(map)@, id@) is Some || *old(offset) - 4
                >= i8::MIN,
            _ => true,
        }),
    ensures
        ({
            let (r2, m2, o2) = alloc_operand(node, old(map)@, *old(offset) as int);
            r == r2 && final(map)@ == m2 && *final(offset) as int == o2
        }),
{
    match node {
        Operand::PseudoRegister(identifier) => match map.get(&identifier) {
            Some(value) => Operand::Stack(value),
            None => {
                *offset = *offset - (TMP_VAR_BYTE_LEN as i8);
                let off = *offset;
                map.insert(identifier, off);
                Operand::Stack(off)
            },
        },
        _ => node,
    }
}

/// Resolves every pseudo-register in the sequence, threading one fresh
/// assignment through the whole function.
pub fn parse_instructions(nodes: Vec<Instruction>, stack_offset: &mut i8) -> (r: Vec<Instruction>)
    requires
        no_allocate_stack(nodes@),
        alloc_instructions(nodes@, Seq::empty(), *old(stack_offset) as int).2 >= i8::MIN,
    ensures
        ({
            let (r2, m2, off2) = alloc_instructions(nodes@, Seq::empty(), *old(stack_offset) as int);
            r@ == r2 && *final(stack_offset) as int == off2
        }),
{
    let mut instructions: Vec<Instruction> = Vec::new();
    let mut map = AllocationMap::new();
    let ghost off0 = *stack_offset as int;
    let ghost whole = alloc_instructions(nodes@, Seq::empty(), off0);

    let n = nodes.len();
    let mut i: usize = 0;
    proof {
        assert(nodes@.skip(0) =~= nodes@);
        assert(map@ =~= Seq::<(Seq<char>, int)>::empty());
        let (rs0, m0, o0) = alloc_instructions(nodes@, map@, *stack_offset as int);
        assert(instructions@ + rs0 =~= rs0);
    }
    while i < n
        invariant
            n == nodes.len(),
            i <= n,
            no_allocate_stack(nodes@),
            whole == alloc_instructions(nodes@, Seq::empty(), off0),
            whole.2 >= i8::MIN,
            ({
                let (rs, m2, o2) = alloc_instructions(nodes@.skip(i as int), map@, *stack_offset as int);
                whole.0 == instructions@ + rs && whole.1 == m2 && whole.2 == o2
            }),
        decreases n - i,
    {
        let ghost m_before = map@;
        let ghost off_before = *stack_offset as int;
        let ghost suffix = nodes@.skip(i as int);
        proof {
            assert(suffix[0] == nodes@[i as int]);
            assert(suffix.drop_first() =~= nodes@.skip(i + 1));
            assert(forall|k: int|
                0 <= k < suffix.len() ==> !((#[trigger] suffix[k]) is AllocateStack));
            lemma_alloc_monotonic(suffix.drop_first(), alloc_instruction(suffix[0], m_before, off_before).1, alloc_instruction(suffix[0], m_before, off_before).2);
        }
        let instruction = clone_instruction(&nodes[i]);
        match instruction {
            Instruction::Mov { src, dst } => {
                let ghost node0 = Instruction::Mov { src, dst };
                proof {
                    let (s2, m1, o1) = alloc_operand(src, m_before, off_before);
                    lemma_alloc_operand_monotonic(dst, m1, o1);
                }
                let src = parse_operand(src, &mut map, stack_offset);
                let dst = parse_operand(dst, &mut map, stack_offset);
                instructions.push(Instruction::Mov { src, dst });
            },
            Instruction::Unary { op, dst } => {
                let dst = parse_operand(dst, &mut map, stack_offset);
                instructions.push(Instruction::Unary { op, dst });
            },
            Instruction::Binary { op, src, dst } => {
                let ghost node0 = Instruction::Binary { op, src, dst };
                proof {
                    let (s2, m1, o1) = alloc_operand(src, m_before, off_before);
                    lemma_alloc_operand_monotonic(dst, m1, o1);
                }
                let src = parse_operand(src, &mut map, stack_offset);
                let dst = parse_operand(dst, &mut map, stack_offset);
                instructions.push(Instruction::Binary { op, src, dst });
            },
            Instruction::Idiv(operand) => {
                let operand = parse_operand(operand, &mut map, stack_offset);
                instructions.push(Instruction::Idiv(operand));
            },
            Instruction::Ret => {
                instructions.push(Instruction::Ret);
            },
            Instruction::Cdq => {
                instructions.push(Instruction::Cdq);
            },
            Instruction::AllocateStack(_) => {
                proof {
                    assert(false);
                }
            },
        }
        proof {
            assert(instructions@ + alloc_instructions(nodes@.skip(i + 1), map@, *stack_offset as int).0
                =~= whole.0);
        }
        i = i + 1;
    }
    proof {
        assert(nodes@.skip(n as int) =~= Seq::<Instruction>::empty());
        assert(instructions@ + Seq::<Instruction>::empty() =~= instructions@);
    }
    instructions
}

/// Resolves a whole function, keeping its name.
pub fn parse_function_definition(node: FunctionDefinition, stack_offset: &mut i8) -> (r:
    FunctionDefinition)
    requires
        match node {
            FunctionDefinition::Function { name, instructions } => no_allocate_stack(instructions@)
                && alloc_instructions(instructions@, Seq::empty(), *old(stack_offset) as int).2
                >= i8::MIN,
        },
    ensures
        match (node, r) {
            (
                FunctionDefinition::Function { name, instructions },
                FunctionDefinition::Function { name: rname, instructions: rinstrs },
            ) => rname == name && ({
                let (r2, m2, off2) = alloc_instructions(
                    instructions@,
                    Seq::empty(),
                    *old(stack_offset) as int,
                );
                rinstrs@ == r2 && *final(stack_offset) as int == off2
            }),
        },
{
    match node {
        FunctionDefinition::Function { name, instructions } => FunctionDefinition::Function {
            name,
            instructions: parse_instructions(instructions, stack_offset),
        },
    }
}

/// Resolves a whole program, returning the transformed program and the
/// final (most negative) stack offset: the byte size of the required
/// frame is its magnitude.
pub fn parse_program_definition(node: ProgramDefinition) -> (r: (ProgramDefinition, i8))
    requires
        match node {
            ProgramDefinition::Program(FunctionDefinition::Function { name, instructions }) =>
                no_allocate_stack(instructions@) && alloc_instructions(
                    instructions@,
                    Seq::empty(),
                    0,
                ).2 >= i8::MIN,
        },
    ensures
        match (node, r.0) {
            (
                ProgramDefinition::Program(FunctionDefinition::Function { name, instructions }),
                ProgramDefinition::Program(FunctionDefinition::Function { name: rname, instructions: rinstrs }),
            ) => rname == name && ({
                let (r2, m2, off2) = alloc_instructions(instructions@, Seq::empty(), 0);
                &&& rinstrs@ == r2
                &&& r.1 as int == off2
                &&& -(r.1 as int) == 4 * pseudo_ids(instructions@).len()
            }),
        },
{
    proof {
        let ghost g = node;
        match g {
            ProgramDefinition::Program(FunctionDefinition::Function { name, instructions }) => {
                lemma_frame_size(instructions@);
            },
        }
    }
    let mut stack_offset: i8 = 0;

    match node {
        ProgramDefinition::Program(func_defn) => {
            let program_defn = ProgramDefinition::Program(
                parse_function_definition(func_defn, &mut stack_offset),
            );
            (program_defn, stack_offset)
        },
    }
}

} // verus!
