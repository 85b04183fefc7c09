use vstd::prelude::*;

use crate::ExecError;
use crate::StepEvent;
use crate::mode::Mode;
use crate::mode::ModeList;
use crate::mode::immediate;
use crate::mode::modes_of;
use crate::mode::modes_valid;
use crate::mode::position;
use crate::mode::relative_base;
use crate::mode::resolved_index;
use crate::opcode::Instruction;
use crate::opcode::Op;
use crate::opcode::arity_of;
use crate::opcode::op_of_num;
use crate::opcode::opcode_num;

verus! {

/// The slack added on top of a resolved index when the tape grows, so that
/// a run of nearby accesses does not grow the tape over and over.
pub const GROW_SLACK: usize = 42;

/// The largest memory index an operand may resolve to: growing the tape to
/// cover a larger one would push its length past `usize::MAX`.
pub const MAX_INDEX: usize = usize::MAX - 42;

/// The execution state of one program run: the growable integer tape, the
/// control registers and the operand indices of the current instruction.
pub struct Program {
    /// The tape: the program's source code, which the run also reads and
    /// writes as its memory.
    pub code: Vec<i64>,
    /// The instruction pointer: the index of the next opcode word to fetch.
    pub ip: usize,
    /// Whether the instruction pointer is advanced after the current
    /// instruction; a taken jump clears it for one cycle.
    pub move_ip: bool,
    /// The relative base register, added to operands in relative-base mode.
    pub rel_base: i64,
    /// The memory indices the operands of the current instruction resolved
    /// to, one per operand; rebuilt every cycle.
    pub param_indices: Vec<usize>,
    /// Whether the run has reached the halt word.
    pub finish: bool,
}

/// The mathematical image of a `Program`: the same six components over
/// `Seq` and `int`.
#[verifier::ext_equal]
pub ghost struct ProgramState {
    pub code: Seq<i64>,
    pub ip: int,
    pub move_ip: bool,
    pub rel_base: int,
    pub param_indices: Seq<usize>,
    pub finish: bool,
}

impl View for Program {
    type V = ProgramState;

    open spec fn view(&self) -> ProgramState {
        ProgramState {
            code: self.code@,
            ip: self.ip as int,
            move_ip: self.move_ip,
            rel_base: self.rel_base as int,
            param_indices: self.param_indices@,
            finish: self.finish,
        }
    }
}

/// The memory index the operand at 0-based position k of the current
/// instruction resolved to.
pub open spec fn operand_index(s: ProgramState, k: int) -> int
    recommends
        0 <= k < s.param_indices.len(),
{
    s.param_indices[k] as int
}

/// The value of the operand at 0-based position k of the current
/// instruction: the tape cell at its resolved index.
pub open spec fn operand(s: ProgramState, k: int) -> i64
    recommends
        0 <= k < s.param_indices.len(),
        0 <= operand_index(s, k) < s.code.len(),
{
    s.code[operand_index(s, k)]
}

/// The first n resolved operand indices exist and lie on the tape.
pub open spec fn operands_in_bounds(s: ProgramState, n: int) -> bool {
    s.param_indices.len() >= n && forall|k: int|
        0 <= k < n ==> 0 <= #[trigger] operand_index(s, k) < s.code.len()
}

pub proof fn lemma_operands_in_bounds(s: ProgramState, n: int)
    requires
        operands_in_bounds(s, n),
    ensures
        s.param_indices.len() >= n,
        forall|k: int| 0 <= k < n ==> 0 <= #[trigger] s.param_indices[k] < s.code.len(),
{
    assert forall|k: int| 0 <= k < n implies 0 <= #[trigger] s.param_indices[k]
        < s.code.len() by {
        assert(0 <= operand_index(s, k) < s.code.len());
    }
}

/// Both control registers, the resolved operands and the finish flag agree;
/// only the tape may differ.
pub open spec fn only_code_changed(pre: ProgramState, post: ProgramState) -> bool {
    post.ip == pre.ip && post.move_ip == pre.move_ip && post.rel_base == pre.rel_base
        && post.param_indices == pre.param_indices && post.finish == pre.finish
}

/// The handler stored v at the resolved index of operand k and changed
/// nothing else.
pub open spec fn stores_value(pre: ProgramState, post: ProgramState, k: int, v: i64) -> bool {
    only_code_changed(pre, post) && post.code == pre.code.update(operand_index(pre, k), v)
}

/// The largest of the resolved operand indices, or 0 when none resolved.
pub open spec fn max_operand_index(s: Seq<usize>) -> int
    decreases s.len(),
{
    if s.len() == 0 {
        0
    } else if s.last() as int >= max_operand_index(s.drop_last()) {
        s.last() as int
    } else {
        max_operand_index(s.drop_last())
    }
}

pub proof fn lemma_max_operand_index(s: Seq<usize>)
    ensures
        max_operand_index(s) >= 0,
        forall|k: int| 0 <= k < s.len() ==> #[trigger] s[k] <= max_operand_index(s),
        s.len() > 0 ==> exists|k: int| 0 <= k < s.len() && s[k] == max_operand_index(s),
    decreases s.len(),
{
    if s.len() > 0 {
        lemma_max_operand_index(s.drop_last());
        assert forall|k: int| 0 <= k < s.len() implies #[trigger] s[k] <= max_operand_index(
            s,
        ) by {
            if k < s.len() - 1 {
                assert(s.drop_last()[k] == s[k]);
            }
        }
        if s.last() as int >= max_operand_index(s.drop_last()) {
            assert(s[s.len() - 1] == max_operand_index(s));
        } else {
            let k = choose|k: int|
                0 <= k < s.drop_last().len() && s.drop_last()[k] == max_operand_index(
                    s.drop_last(),
                );
            assert(s[k] == max_operand_index(s));
        }
    }
}

/// The tape after the growth policy ran for the maximal resolved index:
/// unchanged when that index lies on the tape, else extended with zeros up
/// to the index plus the slack.
pub open spec fn grow_spec(code: Seq<i64>, max: int) -> Seq<i64> {
    if max < code.len() {
        code
    } else {
        code + Seq::new((max + GROW_SLACK - code.len()) as nat, |i: int| 0i64)
    }
}

/// The memory index the operand at position k of the current instruction
/// resolves to, for the given mode list.
pub open spec fn resolved_operand(s: ProgramState, modes: Seq<Mode>, k: int) -> int
    recommends
        0 <= k < modes.len(),
{
    resolved_index(s.code, s.rel_base, modes[k], s.ip + 1 + k)
}

/// How resolving operand k fails, if it does. An immediate operand's
/// address is its own slot, which always lies on the tape; in the other
/// modes an address that is negative or beyond `MAX_INDEX` is fatal.
pub open spec fn operand_failure(s: ProgramState, modes: Seq<Mode>, k: int) -> Option<ExecError>
    recommends
        0 <= k < modes.len(),
{
    let v = resolved_operand(s, modes, k);
    if modes[k] is Immediate {
        None
    } else if v < 0 {
        Some(ExecError::NegativeAddress)
    } else if v > MAX_INDEX {
        Some(ExecError::AddressOverflow)
    } else {
        None
    }
}

/// The failure of the first failing operand at position k or above, if any:
/// resolution stops at the first fatal address.
pub open spec fn first_operand_failure(
    s: ProgramState,
    modes: Seq<Mode>,
    k: int,
) -> Option<ExecError>
    decreases modes.len() - k,
{
    if k < 0 || k >= modes.len() {
        None
    } else if operand_failure(s, modes, k) is Some {
        operand_failure(s, modes, k)
    } else {
        first_operand_failure(s, modes, k + 1)
    }
}

pub proof fn lemma_first_operand_failure_skip(s: ProgramState, modes: Seq<Mode>, k: int)
    requires
        0 <= k <= modes.len(),
        forall|j: int| 0 <= j < k ==> #[trigger] operand_failure(s, modes, j) is None,
    ensures
        first_operand_failure(s, modes, 0) == first_operand_failure(s, modes, k),
    decreases k,
{
    if k > 0 {
        lemma_first_operand_failure_skip(s, modes, k - 1);
    }
}

/// The indices all operands of the current instruction resolve to, in
/// operand order.
pub open spec fn resolved_operands(s: ProgramState, modes: Seq<Mode>) -> Seq<usize>
    recommends
        first_operand_failure(s, modes, 0) is None,
{
    Seq::new(modes.len(), |k: int| resolved_operand(s, modes, k) as usize)
}

/// The state with v stored at the resolved index of operand k.
pub open spec fn store_spec(s: ProgramState, k: int, v: i64) -> ProgramState {
    ProgramState { code: s.code.update(operand_index(s, k), v), ..s }
}

/// The state after the automatic advance of the instruction pointer over
/// the opcode word and its operands, unless a taken jump suppressed it.
pub open spec fn advance_spec(s: ProgramState, arity: int) -> ProgramState {
    if s.move_ip {
        ProgramState { ip: s.ip + 1 + arity, ..s }
    } else {
        s
    }
}

/// One taken or skipped jump: on a taken jump the instruction pointer is
/// set to the second operand and the automatic advance is suppressed; on a
/// skipped one the pointer advances as usual.
pub open spec fn jump_spec(s: ProgramState, taken: bool) -> (Result<StepEvent, ExecError>,
    ProgramState) {
    if taken {
        let t = operand(s, 1);
        if t < 0 {
            (Err(ExecError::NegativeAddress), s)
        } else if t > usize::MAX {
            (Err(ExecError::AddressOverflow), s)
        } else {
            (Ok(StepEvent::Continue), ProgramState { ip: t as int, move_ip: false, ..s })
        }
    } else {
        (Ok(StepEvent::Continue), advance_spec(s, 2))
    }
}

/// What the handler of op does to the state s in which the operands are
/// already resolved and the tape grown to hold them.
pub open spec fn dispatch_spec(s: ProgramState, op: Op, input: Option<i64>) -> (Result<
    StepEvent,
    ExecError,
>, ProgramState) {
    match op {
        Op::NoOp => (Ok(StepEvent::Continue), advance_spec(s, 0)),
        Op::Add => {
            let a = operand(s, 0);
            let b = operand(s, 1);
            if i64::MIN <= a + b <= i64::MAX {
                (Ok(StepEvent::Continue), advance_spec(store_spec(s, 2, (a + b) as i64), 3))
            } else {
                (Err(ExecError::Overflow), s)
            }
        },
        Op::Multiply => {
            let a = operand(s, 0);
            let b = operand(s, 1);
            if i64::MIN <= a * b <= i64::MAX {
                (Ok(StepEvent::Continue), advance_spec(store_spec(s, 2, (a * b) as i64), 3))
            } else {
                (Err(ExecError::Overflow), s)
            }
        },
        Op::Input => match input {
            None => (Ok(StepEvent::NeedInput), s),
            Some(v) => (Ok(StepEvent::InputStored), advance_spec(store_spec(s, 0, v), 1)),
        },
        Op::Output => (Ok(StepEvent::Output(operand(s, 0))), advance_spec(s, 1)),
        Op::JumpNonZero => jump_spec(s, operand(s, 0) != 0),
        Op::JumpZero => jump_spec(s, operand(s, 0) == 0),
        Op::LessThan => (
            Ok(StepEvent::Continue),
            advance_spec(
                store_spec(
                    s,
                    2,
                    if operand(s, 0) < operand(s, 1) {
                        1i64
                    } else {
                        0i64
                    },
                ),
                3,
            ),
        ),
        Op::Equal => (
            Ok(StepEvent::Continue),
            advance_spec(
                store_spec(
                    s,
                    2,
                    if operand(s, 0) == operand(s, 1) {
                        1i64
                    } else {
                        0i64
                    },
                ),
                3,
            ),
        ),
        Op::AddRelativeBase => {
            let a = operand(s, 0);
            if i64::MIN <= s.rel_base + a <= i64::MAX {
                (
                    Ok(StepEvent::Continue),
                    advance_spec((ProgramState { rel_base: s.rel_base + a, ..s }), 1),
                )
            } else {
                (Err(ExecError::Overflow), s)
            }
        },
    }
}

/// One whole fetch-decode-resolve-execute-advance cycle on the state pre,
/// with the input value offered to an input instruction, if any: the
/// outcome reported and the state left behind.
pub open spec fn step_spec(pre: ProgramState, input: Option<i64>) -> (Result<
    StepEvent,
    ExecError,
>, ProgramState) {
    if pre.finish {
        (Ok(StepEvent::Halted), pre)
    } else {
        let s = ProgramState { move_ip: true, ..pre };
        if s.ip >= s.code.len() {
            (Err(ExecError::IpOutOfRange), s)
        } else {
            let word = s.code[s.ip];
            if word == 99 {
                (Ok(StepEvent::Halted), ProgramState { finish: true, ..s })
            } else {
                match op_of_num(opcode_num(word)) {
                    None => (Err(ExecError::InvalidOpcode), s),
                    Some(op) => {
                        let n = arity_of(op);
                        if s.ip + 1 + n > s.code.len() {
                            (Err(ExecError::IpOutOfRange), s)
                        } else if !modes_valid(word, n) {
                            (Err(ExecError::InvalidMode), s)
                        } else {
                            let ms = modes_of(word, n);
                            match first_operand_failure(s, ms, 0) {
                                Some(e) => (Err(e), s),
                                None => dispatch_spec(
                                    (ProgramState {
                                        param_indices: resolved_operands(s, ms),
                                        code: grow_spec(
                                            s.code,
                                            max_operand_index(resolved_operands(s, ms)),
                                        ),
                                        ..s
                                    }),
                                    op,
                                    input,
                                ),
                            }
                        }
                    },
                }
            }
        }
    }
}

/// Resolution of a whole operand list is pure: it is a function of the
/// tape, the relative base and the instruction pointer alone, with no
/// regard to the rest of the state, so two states that agree on those
/// resolve every operand to the same index.
pub proof fn lemma_param_resolution_pure(s1: ProgramState, s2: ProgramState, modes: Seq<Mode>)
    requires
        s1.code == s2.code,
        s1.rel_base == s2.rel_base,
        s1.ip == s2.ip,
    ensures
        resolved_operands(s1, modes) == resolved_operands(s2, modes),
        first_operand_failure(s1, modes, 0) == first_operand_failure(s2, modes, 0),
{
    assert(resolved_operands(s1, modes) =~= resolved_operands(s2, modes));
    lemma_first_operand_failure_pure(s1, s2, modes, 0);
}

proof fn lemma_first_operand_failure_pure(
    s1: ProgramState,
    s2: ProgramState,
    modes: Seq<Mode>,
    k: int,
)
    requires
        s1.code == s2.code,
        s1.rel_base == s2.rel_base,
        s1.ip == s2.ip,
    ensures
        first_operand_failure(s1, modes, k) == first_operand_failure(s2, modes, k),
    decreases modes.len() - k,
{
    if 0 <= k < modes.len() {
        lemma_first_operand_failure_pure(s1, s2, modes, k + 1);
    }
}

/// A jump suppresses the automatic advance of the instruction pointer
/// exactly when its branch condition is satisfied: a taken jump with a
/// legal target puts the pointer at the target and clears the advance; a
/// skipped jump leaves the advance in force, so the pointer moves over the
/// instruction as usual.
pub proof fn lemma_jump_suppresses_advance_iff_taken(s: ProgramState, taken: bool)
    requires
        s.move_ip,
        taken ==> 0 <= operand(s, 1) <= usize::MAX,
    ensures
        jump_spec(s, taken).0 == Ok::<StepEvent, ExecError>(StepEvent::Continue),
        taken ==> !jump_spec(s, taken).1.move_ip && jump_spec(s, taken).1.ip == operand(s, 1),
        !taken ==> jump_spec(s, taken).1.move_ip && jump_spec(s, taken).1.ip == s.ip + 3,
{
}

/// A bounded run of the engine loop from s: step after step until the halt
/// word, a fatal error, an input instruction with the input list used up,
/// or an empty step budget. Returns the values emitted in program order,
/// and the state left behind.
pub open spec fn run_spec(s: ProgramState, inputs: Seq<i64>, fuel: nat) -> (Result<
    Seq<i64>,
    ExecError,
>, ProgramState)
    decreases fuel,
{
    if s.finish {
        (Ok(Seq::empty()), s)
    } else if fuel == 0 {
        (Err(ExecError::StepLimitReached), s)
    } else {
        let inp = if inputs.len() > 0 {
            Some(inputs[0])
        } else {
            None
        };
        let (r, s2) = step_spec(s, inp);
        match r {
            Ok(StepEvent::Halted) => (Ok(Seq::empty()), s2),
            Ok(StepEvent::Continue) => run_spec(s2, inputs, (fuel - 1) as nat),
            Ok(StepEvent::InputStored) => run_spec(s2, inputs.drop_first(), (fuel - 1) as nat),
            Ok(StepEvent::NeedInput) => (Err(ExecError::InputExhausted), s2),
            Ok(StepEvent::Output(v)) => {
                let (rr, sf) = run_spec(s2, inputs, (fuel - 1) as nat);
                match rr {
                    Ok(rest) => (Ok(seq![v] + rest), sf),
                    Err(e) => (Err(e), sf),
                }
            },
            Err(e) => (Err(e), s2),
        }
    }
}

impl Program {
    /// A fresh run of `code`: instruction pointer and relative base at 0,
    /// automatic advance on, no operands resolved yet, not finished.
    pub fn new(code: Vec<i64>) -> (p: Program)
        ensures
            p@.code == code@,
            p@.ip == 0,
            p@.move_ip,
            p@.rel_base == 0,
            p@.param_indices == Seq::<usize>::empty(),
            !p@.finish,
    {
        let p = Program {
            code,
            ip: 0,
            move_ip: true,
            rel_base: 0,
            param_indices: vec![],
            finish: false,
        };
        proof {
            assert(p@.param_indices =~= Seq::<usize>::empty());
        }
        p
    }

    /// The largest index among the resolved operands, or 0 when none.
    #[verifier::loop_isolation(false)]
    fn max_param_index(&self) -> (m: usize)
        ensures
            m as int == max_operand_index(self@.param_indices),
    {
        let mut m: usize = 0;
        let mut k: usize = 0;
        while k < self.param_indices.len()
            invariant
                k <= self.param_indices@.len(),
                m as int == max_operand_index(self@.param_indices.take(k as int)),
            decreases self.param_indices@.len() - k,
        {
            let v = self.param_indices[k];
            proof {
                assert(self@.param_indices.take(k + 1).drop_last() =~= self@.param_indices.take(
                    k as int,
                ));
                assert(self@.param_indices.take(k + 1).last() == self@.param_indices[k as int]);
            }
            if v > m {
                m = v;
            }
            k += 1;
        }
        proof {
            assert(self@.param_indices.take(self.param_indices@.len() as int)
                =~= self@.param_indices);
        }
        m
    }

    /// Grows the tape if a resolved operand index lies beyond it, extending
    /// it with zeros up to that index plus `GROW_SLACK`. Growth never
    /// truncates or corrupts: every cell below the old length keeps its
    /// value. An index below the current length leaves the tape untouched;
    /// one at or beyond it grows the tape to cover the index.
    #[verifier::loop_isolation(false)]
    pub fn grow_code_if_necessary(&mut self)
        requires
            max_operand_index(old(self)@.param_indices) >= old(self)@.code.len()
                ==> max_operand_index(old(self)@.param_indices) + GROW_SLACK <= usize::MAX,
        ensures
            final(self)@.code == grow_spec(
                old(self)@.code,
                max_operand_index(old(self)@.param_indices),
            ),
            only_code_changed(old(self)@, final(self)@),
            final(self)@.code.len() >= old(self)@.code.len(),
            forall|i: int|
                0 <= i < old(self)@.code.len() ==> final(self)@.code[i] == old(self)@.code[i],
            max_operand_index(old(self)@.param_indices) < old(self)@.code.len()
                ==> final(self)@.code == old(self)@.code,
            max_operand_index(old(self)@.param_indices) >= old(self)@.code.len()
                ==> final(self)@.code.len() > max_operand_index(old(self)@.param_indices),
    {
        let max = self.max_param_index();
        if max >= self.code.len() {
            let new_len = max + GROW_SLACK;
            while self.code.len() < new_len
                invariant
                    old(self)@.code.len() <= self.code@.len() <= new_len,
                    forall|i: int|
                        0 <= i < old(self)@.code.len() ==> self.code@[i] == old(self)@.code[i],
                    forall|i: int|
                        old(self)@.code.len() <= i < self.code@.len() ==> self.code@[i] == 0,
                    self.ip == old(self).ip,
                    self.move_ip == old(self).move_ip,
                    self.rel_base == old(self).rel_base,
                    self.param_indices@ == old(self)@.param_indices,
                    self.finish == old(self).finish,
                decreases new_len - self.code@.len(),
            {
                self.code.push(0);
            }
            proof {
                assert(self@.code =~= grow_spec(
                    old(self)@.code,
                    max_operand_index(old(self)@.param_indices),
                ));
            }
        }
    }

    /// Processes the mode list into the list of memory indices of the
    /// parameters, one per operand of the current instruction, and grows
    /// the tape to cover the largest of them. Fails with the failure of the
    /// first operand that resolves to a fatal address, leaving the program
    /// untouched then.
    #[verifier::loop_isolation(false)]
    pub fn get_param_indices(&mut self, modes: ModeList) -> (r: Result<(), ExecError>)
        requires
            old(self)@.ip + 1 + modes.0@.len() <= old(self)@.code.len(),
        ensures
            match r {
                Ok(()) => {
                    &&& first_operand_failure(old(self)@, modes.0@, 0) is None
                    &&& final(self)@.param_indices == resolved_operands(old(self)@, modes.0@)
                    &&& final(self)@.code == grow_spec(
                        old(self)@.code,
                        max_operand_index(resolved_operands(old(self)@, modes.0@)),
                    )
                    &&& final(self)@.ip == old(self)@.ip
                    &&& final(self)@.move_ip == old(self)@.move_ip
                    &&& final(self)@.rel_base == old(self)@.rel_base
                    &&& final(self)@.finish == old(self)@.finish
                    &&& operands_in_bounds(final(self)@, modes.0@.len() as int)
                },
                Err(e) => {
                    &&& final(self)@ == old(self)@
                    &&& first_operand_failure(old(self)@, modes.0@, 0) == Some(e)
                },
            },
    {
        let n = modes.0.len();
        let code_len = self.code.len();
        let mut indices: Vec<usize> = Vec::new();
        let mut k: usize = 0;
        while k < n
            invariant
                k <= n,
                self@ == old(self)@,
                self@.ip + 1 + n <= self@.code.len(),
                self@.code.len() == code_len,
                indices@.len() == k,
                forall|j: int|
                    0 <= j < k ==> #[trigger] operand_failure(old(self)@, modes.0@, j) is None,
                forall|j: int|
                    0 <= j < k ==> #[trigger] indices@[j] as int == resolved_operand(
                        old(self)@,
                        modes.0@,
                        j,
                    ),
            decreases n - k,
        {
            // The operand slots follow the opcode word: the instruction
            // pointer plus one for the opcode plus the operand's position.
            let slot = self.ip + 1 + k;
            let idx = match modes.0[k] {
                Mode::Position => match position(self, slot) {
                    Ok(u) => u,
                    Err(e) => {
                        proof {
                            lemma_first_operand_failure_skip(old(self)@, modes.0@, k as int);
                        }
                        return Err(e);
                    },
                },
                Mode::Immediate => immediate(self, slot),
                Mode::RelativeBase => match relative_base(self, slot) {
                    Ok(u) => u,
                    Err(e) => {
                        proof {
                            lemma_first_operand_failure_skip(old(self)@, modes.0@, k as int);
                        }
                        return Err(e);
                    },
                },
            };
            indices.push(idx);
            k += 1;
        }
        proof {
            lemma_first_operand_failure_skip(old(self)@, modes.0@, n as int);
            assert(indices@ =~= resolved_operands(old(self)@, modes.0@));
        }
        self.param_indices = indices;
        proof {
            lemma_max_operand_index(self@.param_indices);
            let maxi = max_operand_index(self@.param_indices);
            if maxi >= self@.code.len() && self@.param_indices.len() > 0 {
                let w = choose|w: int|
                    0 <= w < self@.param_indices.len() && self@.param_indices[w] == maxi;
                assert(operand_failure(old(self)@, modes.0@, w) is None);
                assert(!(modes.0@[w] is Immediate)) by {
                    if modes.0@[w] is Immediate {
                        assert(resolved_operand(old(self)@, modes.0@, w) == old(self)@.ip + 1 + w);
                    }
                }
            }
        }
        self.grow_code_if_necessary();
        proof {
            lemma_max_operand_index(self@.param_indices);
            assert forall|j: int| 0 <= j < n implies 0 <= #[trigger] operand_index(self@, j)
                < self@.code.len() by {
                assert(self@.param_indices[j] <= max_operand_index(self@.param_indices));
            }
        }
        Ok(())
    }

    /// One fetch-decode-resolve-execute-advance cycle: fetches the opcode
    /// word at the instruction pointer, halts on the halt word, decodes the
    /// instruction and its modes, resolves and bounds the operands, runs
    /// the handler and advances the pointer unless a taken jump suppressed
    /// that. An input instruction consumes the offered value, or reports
    /// `NeedInput` without running when none is offered. The outcome and
    /// the state left behind are exactly those of `step_spec`.
    pub fn step(&mut self, input: Option<i64>) -> (r: Result<StepEvent, ExecError>)
        ensures
            r == step_spec(old(self)@, input).0,
            final(self)@ == step_spec(old(self)@, input).1,
    {
        if self.finish {
            return Ok(StepEvent::Halted);
        }
        self.move_ip = true;
        proof {
            assert(self@ =~= (ProgramState { move_ip: true, ..old(self)@ }));
        }
        if self.ip >= self.code.len() {
            return Err(ExecError::IpOutOfRange);
        }
        let word = self.code[self.ip];
        if word == 99 {
            self.finish = true;
            proof {
                assert(self@ =~= (ProgramState {
                    finish: true,
                    ..(ProgramState { move_ip: true, ..old(self)@ })
                }));
            }
            return Ok(StepEvent::Halted);
        }
        let instruction = match Instruction::new(word) {
            Ok(ins) => ins,
            Err(e) => return Err(e),
        };
        let n = instruction.num_of_params;
        if n > self.code.len() - 1 - self.ip {
            return Err(ExecError::IpOutOfRange);
        }
        proof {
            if word < 0 {
                // the only negative words the table accepts select the
                // zero-operand no-op, so no mode digit is ever read
                assert(opcode_num(word) == 0);
                assert(instruction.op == Op::NoOp);
            }
        }
        let modes = match ModeList::new(word, n) {
            Ok(m) => m,
            Err(e) => return Err(e),
        };
        match self.get_param_indices(modes) {
            Ok(()) => {},
            Err(e) => return Err(e),
        }
        proof {
            let s = ProgramState { move_ip: true, ..old(self)@ };
            let ms = modes_of(word, n as int);
            assert(self@ =~= (ProgramState {
                param_indices: resolved_operands(s, ms),
                code: grow_spec(s.code, max_operand_index(resolved_operands(s, ms))),
                ..s
            }));
            lemma_operands_in_bounds(self@, n as int);
        }
        let event: StepEvent;
        match instruction.op {
            Op::NoOp => {
                crate::opcode::no_op(self);
                event = StepEvent::Continue;
            },
            Op::Add => {
                let a = self.code[self.param_indices[0]];
                let b = self.code[self.param_indices[1]];
                if a.checked_add(b).is_none() {
                    return Err(ExecError::Overflow);
                }
                crate::opcode::add(self);
                event = StepEvent::Continue;
            },
            Op::Multiply => {
                let a = self.code[self.param_indices[0]];
                let b = self.code[self.param_indices[1]];
                if a.checked_mul(b).is_none() {
                    return Err(ExecError::Overflow);
                }
                crate::opcode::multiply(self);
                event = StepEvent::Continue;
            },
            Op::Input => {
                match input {
                    None => {
                        return Ok(StepEvent::NeedInput);
                    },
                    Some(v) => {
                        crate::opcode::input(self, v);
                        event = StepEvent::InputStored;
                    },
                }
            },
            Op::Output => {
                let v = crate::opcode::output(self);
                event = StepEvent::Output(v);
            },
            Op::JumpNonZero => {
                let a = self.code[self.param_indices[0]];
                if a != 0 {
                    let t = self.code[self.param_indices[1]];
                    if t < 0 {
                        return Err(ExecError::NegativeAddress);
                    }
                    if t as u64 > usize::MAX as u64 {
                        return Err(ExecError::AddressOverflow);
                    }
                }
                crate::opcode::jump_non_zero(self);
                event = StepEvent::Continue;
            },
            Op::JumpZero => {
                let a = self.code[self.param_indices[0]];
                if a == 0 {
                    let t = self.code[self.param_indices[1]];
                    if t < 0 {
                        return Err(ExecError::NegativeAddress);
                    }
                    if t as u64 > usize::MAX as u64 {
                        return Err(ExecError::AddressOverflow);
                    }
                }
                crate::opcode::jump_zero(self);
                event = StepEvent::Continue;
            },
            Op::LessThan => {
                crate::opcode::less_than(self);
                event = StepEvent::Continue;
            },
            Op::Equal => {
                crate::opcode::equal(self);
                event = StepEvent::Continue;
            },
            Op::AddRelativeBase => {
                let a = self.code[self.param_indices[0]];
                if self.rel_base.checked_add(a).is_none() {
                    return Err(ExecError::Overflow);
                }
                crate::opcode::add_relative_base(self);
                event = StepEvent::Continue;
            },
        }
        if self.move_ip {
            self.ip = self.ip + 1 + n;
        }
        proof {
            assert(self@ =~= step_spec(old(self)@, input).1);
        }
        Ok(event)
    }

    /// Drives the engine until the halt word or a fatal condition, for at
    /// most max_steps cycles: input instructions read the values of the
    /// input list in order, and every emitted value is collected. Outcome
    /// and final state are exactly those of `run_spec`.
    #[verifier::loop_isolation(false)]
    pub fn run(&mut self, inputs: &Vec<i64>, max_steps: u64) -> (r: Result<Vec<i64>, ExecError>)
        ensures
            ({
                let (rr, sf) = run_spec(old(self)@, inputs@, max_steps as nat);
                &&& final(self)@ == sf
                &&& match (r, rr) {
                    (Ok(outs), Ok(os)) => outs@ == os,
                    (Err(e1), Err(e2)) => e1 == e2,
                    _ => false,
                }
            }),
    {
        let mut outputs: Vec<i64> = Vec::new();
        let mut cursor: usize = 0;
        let mut fuel: u64 = max_steps;
        proof {
            assert(inputs@.skip(0) =~= inputs@);
            let (rr, sf) = run_spec(self@, inputs@, max_steps as nat);
            match rr {
                Ok(rest) => {
                    assert(Seq::<i64>::empty() + rest =~= rest);
                },
                Err(_) => {},
            }
        }
        loop
            invariant
                cursor <= inputs@.len(),
                ({
                    let (rr, sf) = run_spec(self@, inputs@.skip(cursor as int), fuel as nat);
                    let (rr0, sf0) = run_spec(old(self)@, inputs@, max_steps as nat);
                    &&& sf0 == sf
                    &&& match rr {
                        Ok(rest) => rr0 == Ok::<Seq<i64>, ExecError>(outputs@ + rest),
                        Err(e) => rr0 == Err::<Seq<i64>, ExecError>(e),
                    }
                }),
            decreases fuel,
        {
            if self.finish {
                proof {
                    assert(outputs@ + Seq::<i64>::empty() =~= outputs@);
                }
                return Ok(outputs);
            }
            if fuel == 0 {
                return Err(ExecError::StepLimitReached);
            }
            let ghost rem = inputs@.skip(cursor as int);
            fuel = fuel - 1;
            let inp = if cursor < inputs.len() {
                Some(inputs[cursor])
            } else {
                None
            };
            proof {
                assert(inp == (if rem.len() > 0 {
                    Some(rem[0])
                } else {
                    None::<i64>
                }));
            }
            match self.step(inp) {
                Ok(StepEvent::Halted) => {
                    proof {
                        assert(outputs@ + Seq::<i64>::empty() =~= outputs@);
                    }
                    return Ok(outputs);
                },
                Ok(StepEvent::Continue) => {},
                Ok(StepEvent::InputStored) => {
                    proof {
                        assert(rem.drop_first() =~= inputs@.skip(cursor + 1));
                    }
                    cursor = cursor + 1;
                },
                Ok(StepEvent::NeedInput) => {
                    return Err(ExecError::InputExhausted);
                },
                Ok(StepEvent::Output(v)) => {
                    proof {
                        let (rr, sf) = run_spec(self@, rem, fuel as nat);
                        match rr {
                            Ok(rest) => {
                                assert(outputs@ + (seq![v] + rest) =~= outputs@.push(v) + rest);
                            },
                            Err(_) => {},
                        }
                    }
                    outputs.push(v);
                },
                Err(e) => {
                    return Err(e);
                },
            }
        }
    }
}

} // verus!
