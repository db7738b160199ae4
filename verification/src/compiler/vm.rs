//! The stack machine that runs compiled bytecode.
use vstd::prelude::*;
use crate::compiler::code::{Opcode, op_of_byte};
use crate::compiler::compiler::Bytecode;
use crate::eval::object::{Object, SObj};

verus! {

/// Why a run stopped before the end of the code.
#[derive(Debug, Clone, Copy, PartialEq, Eq, Structural)]
pub enum VmError {
    /// A push onto a full stack.
    StackOverflow,
    /// An operation on values it does not apply to, an arithmetic result that does
    /// not fit in an `i64`, or a byte that encodes no operation.
    InvalidOperation,
    /// An operand or constant that is not there, or a run longer than the step
    /// limit.
    UnexpectedError,
}

/// The most values the stack holds.
pub const MAX_STACK_SIZE: usize = 2048;

/// The most instructions a run executes.
pub const VM_FUEL: u64 = 0xFFFF_FFFF_FFFF_FFFF;

/// The machine as a mathematical value.
pub struct VState {
    pub consts: Seq<SObj>,
    pub code: Seq<u8>,
    pub stack: Seq<SObj>,
    pub last: Option<SObj>,
}

pub struct VM {
    constants: Vec<Object>,
    instructions: Vec<u8>,
    stack: Vec<Object>,
    last_popped_stack_elem: Option<Object>,
}

pub open spec fn v_push(s: VState, o: SObj) -> (VState, Result<(), VmError>) {
    if s.stack.len() >= MAX_STACK_SIZE {
        (s, Err(VmError::StackOverflow))
    } else {
        (VState { stack: s.stack.push(o), ..s }, Ok(()))
    }
}

/// Pops the top value, which becomes the last popped one. An empty stack has `None`
/// on top, as `stack_top` shows it: popping it gives `None` and leaves the stack empty.
pub open spec fn v_pop(s: VState) -> (VState, Result<SObj, VmError>) {
    if s.stack.len() == 0 {
        (VState { last: Some(SObj::Nil), ..s }, Ok(SObj::Nil))
    } else {
        (VState { stack: s.stack.drop_last(), last: Some(s.stack.last()), ..s }, Ok(s.stack.last()))
    }
}

/// The two-byte operand at `ip`, if the code holds it.
pub open spec fn v_read(code: Seq<u8>, ip: nat) -> Option<u16> {
    if ip + 2 <= code.len() {
        Some((code[ip as int] as int * 256 + code[ip + 1 as int] as int) as u16)
    } else {
        None
    }
}

/// The result of an arithmetic opcode on two numbers, if it fits in an `i64`.
pub open spec fn v_arith(op: Opcode, a: i64, b: i64) -> Option<i64> {
    match op {
        Opcode::OpAdd => a.checked_add(b),
        Opcode::OpSub => a.checked_sub(b),
        Opcode::OpMul => a.checked_mul(b),
        _ => a.checked_div(b),
    }
}

/// Pops the right operand, then the left one, and pushes the result of `op` on them:
/// equality on any two values, arithmetic and `>` on two numbers.
pub open spec fn v_binary(s: VState, op: Opcode) -> (VState, Result<(), VmError>) {
    let (s1, r) = v_pop(s);
    match r {
        Err(e) => (s1, Err(e)),
        Ok(right) => {
            let (s2, l) = v_pop(s1);
            match l {
                Err(e) => (s2, Err(e)),
                Ok(left) => {
                    if op == Opcode::OpEqual {
                        v_push(s2, SObj::Boolean(left == right))
                    } else if op == Opcode::OpNotEqual {
                        v_push(s2, SObj::Boolean(left != right))
                    } else {
                        match (left, right) {
                            (SObj::Number(a), SObj::Number(b)) => {
                                if op == Opcode::OpGreaterThan {
                                    v_push(s2, SObj::Boolean(a > b))
                                } else {
                                    match v_arith(op, a, b) {
                                        Some(v) => v_push(s2, SObj::Number(v)),
                                        None => (s2, Err(VmError::InvalidOperation)),
                                    }
                                }
                            },
                            _ => (s2, Err(VmError::InvalidOperation)),
                        }
                    }
                },
            }
        },
    }
}

/// Pops one value and pushes what the prefix opcode makes of it.
pub open spec fn v_unary(s: VState, op: Opcode) -> (VState, Result<(), VmError>) {
    let (s1, r) = v_pop(s);
    match r {
        Err(e) => (s1, Err(e)),
        Ok(v) => match (op, v) {
            (Opcode::OpBang, SObj::Boolean(b)) => v_push(s1, SObj::Boolean(!b)),
            (Opcode::OpBang, SObj::Nil) => v_push(s1, SObj::Boolean(true)),
            (Opcode::OpMinus, SObj::Number(n)) => match 0i64.checked_sub(n) {
                Some(m) => v_push(s1, SObj::Number(m)),
                None => (s1, Err(VmError::InvalidOperation)),
            },
            _ => (s1, Err(VmError::InvalidOperation)),
        },
    }
}

pub open spec fn with_ip(r: (VState, Result<(), VmError>), ip: nat) -> (VState, Result<nat, VmError>) {
    match r.1 {
        Ok(_) => (r.0, Ok(ip)),
        Err(e) => (r.0, Err(e)),
    }
}

/// Executes `op`, whose operands start at `ip`: the state afterwards and where
/// execution continues.
pub open spec fn v_exec(s: VState, op: Opcode, ip: nat) -> (VState, Result<nat, VmError>) {
    match op {
        Opcode::Constant => match v_read(s.code, ip) {
            None => (s, Err(VmError::UnexpectedError)),
            Some(idx) => if (idx as nat) < s.consts.len() {
                with_ip(v_push(s, s.consts[idx as int]), ip + 2)
            } else {
                (s, Err(VmError::UnexpectedError))
            },
        },
        Opcode::OpAdd => with_ip(v_binary(s, op), ip),
        Opcode::OpSub => with_ip(v_binary(s, op), ip),
        Opcode::OpMul => with_ip(v_binary(s, op), ip),
        Opcode::OpDiv => with_ip(v_binary(s, op), ip),
        Opcode::OpEqual => with_ip(v_binary(s, op), ip),
        Opcode::OpNotEqual => with_ip(v_binary(s, op), ip),
        Opcode::OpGreaterThan => with_ip(v_binary(s, op), ip),
        Opcode::OpPop => {
            let (s1, r) = v_pop(s);
            match r {
                Ok(_) => (s1, Ok(ip)),
                Err(e) => (s1, Err(e)),
            }
        },
        Opcode::OpMinus => with_ip(v_unary(s, op), ip),
        Opcode::OpBang => with_ip(v_unary(s, op), ip),
        Opcode::OpTrue => with_ip(v_push(s, SObj::Boolean(true)), ip),
        Opcode::OpFalse => with_ip(v_push(s, SObj::Boolean(false)), ip),
        Opcode::OpNone => with_ip(v_push(s, SObj::Nil), ip),
        Opcode::OpJump => match v_read(s.code, ip) {
            None => (s, Err(VmError::UnexpectedError)),
            Some(t) => (s, Ok(t as nat)),
        },
        Opcode::OpJumpNotTruthy => match v_read(s.code, ip) {
            None => (s, Err(VmError::UnexpectedError)),
            Some(t) => {
                let (s1, r) = v_pop(s);
                match r {
                    Err(e) => (s1, Err(e)),
                    Ok(c) => (s1, Ok(if c == SObj::Boolean(true) { ip + 2 } else { t as nat })),
                }
            },
        },
        Opcode::OpSetGlobal => (s, Err(VmError::InvalidOperation)),
        Opcode::OpGetGlobal => (s, Err(VmError::InvalidOperation)),
    }
}

/// Runs from `ip` until the end of the code, an error, or `fuel` steps.
pub open spec fn v_run(s: VState, ip: nat, fuel: nat) -> (VState, Result<(), VmError>)
    decreases fuel,
{
    if ip >= s.code.len() {
        (s, Ok(()))
    } else if fuel == 0 {
        (s, Err(VmError::UnexpectedError))
    } else {
        match op_of_byte(s.code[ip as int]) {
            None => (s, Err(VmError::InvalidOperation)),
            Some(op) => {
                let (s1, r) = v_exec(s, op, ip + 1);
                match r {
                    Ok(next) => v_run(s1, next, (fuel - 1) as nat),
                    Err(e) => (s1, Err(e)),
                }
            },
        }
    }
}

/// The stack is within its bound, and the code and constants are those of `s0`.
pub open spec fn vm_ok(s0: VState, s: VState) -> bool {
    &&& s.stack.len() <= MAX_STACK_SIZE
    &&& s.code == s0.code
    &&& s.consts == s0.consts
}

proof fn lemma_exec_ok(s0: VState, s: VState, op: Opcode, ip: nat)
    requires
        vm_ok(s0, s),
    ensures
        vm_ok(s0, v_exec(s, op, ip).0),
{
}

/// A run never lets the stack grow past its bound and never changes the code or
/// the constants.
pub proof fn law_run_keeps_bounds(s: VState, ip: nat, fuel: nat)
    requires
        s.stack.len() <= MAX_STACK_SIZE,
    ensures
        vm_ok(s, v_run(s, ip, fuel).0),
    decreases fuel,
{
    lemma_run_ok(s, s, ip, fuel);
}

proof fn lemma_run_ok(s0: VState, s: VState, ip: nat, fuel: nat)
    requires
        vm_ok(s0, s),
    ensures
        vm_ok(s0, v_run(s, ip, fuel).0),
    decreases fuel,
{
    if ip < s.code.len() && fuel > 0 {
        if let Some(op) = op_of_byte(s.code[ip as int]) {
            lemma_exec_ok(s0, s, op, ip + 1);
            let (s1, r) = v_exec(s, op, ip + 1);
            if let Ok(next) = r {
                lemma_run_ok(s0, s1, next, (fuel - 1) as nat);
            }
        }
    }
}

impl VM {
    pub closed spec fn view(&self) -> VState {
        VState {
            consts: Object::view_seq(self.constants@),
            code: self.instructions@,
            stack: Object::view_seq(self.stack@),
            last: match &self.last_popped_stack_elem {
                Some(o) => Some(o@),
                None => None,
            },
        }
    }

    /// A machine with an empty stack, ready to run `bytecode`.
    pub fn new(bytecode: &Bytecode) -> (r: VM)
        ensures
            r@ == (VState {
                consts: Object::view_seq(bytecode.constants@),
                code: bytecode.instructions@,
                stack: Seq::empty(),
                last: None,
            }),
    {
        let r = VM {
            constants: Object::copy_vec(&bytecode.constants),
            instructions: bytecode.instructions.clone(),
            stack: Vec::new(),
            last_popped_stack_elem: None,
        };
        assert(Object::view_seq(r.stack@) =~= Seq::<SObj>::empty());
        r
    }

    /// The value on top of the stack, `None` when it is empty.
    pub fn stack_top(&self) -> (r: Object)
        ensures
            r@ == (if self@.stack.len() == 0 { SObj::Nil } else { self@.stack.last() }),
    {
        proof { Object::lemma_view_seq(self.stack@); }
        if self.stack.len() == 0 {
            Object::Nil
        } else {
            self.stack[self.stack.len() - 1].copy()
        }
    }

    /// The value popped last, `None` when nothing was popped.
    pub fn last_popped_element(&self) -> (r: Object)
        ensures
            r@ == (match self@.last { Some(o) => o, None => SObj::Nil }),
    {
        match &self.last_popped_stack_elem {
            Some(o) => o.copy(),
            None => Object::Nil,
        }
    }

    fn push(&mut self, obj: Object) -> (r: Result<(), VmError>)
        ensures
            (final(self)@, r) == v_push(old(self)@, obj@),
    {
        proof { Object::lemma_view_seq(self.stack@); }
        if self.stack.len() >= MAX_STACK_SIZE {
            return Err(VmError::StackOverflow);
        }
        proof { Object::lemma_view_seq_push(self.stack@, obj); }
        self.stack.push(obj);
        Ok(())
    }

    fn pop(&mut self) -> (r: Result<Object, VmError>)
        ensures
            (final(self)@, match r { Ok(o) => Ok(o@), Err(e) => Err(e) }) == v_pop(old(self)@),
    {
        proof { Object::lemma_view_seq(self.stack@); }
        match self.stack.pop() {
            Some(val) => {
                proof {
                    Object::lemma_view_seq_push(self.stack@, val);
                    assert(old(self).stack@ =~= self.stack@.push(val));
                    assert(Object::view_seq(old(self).stack@) == Object::view_seq(self.stack@).push(val@));
                    assert(Object::view_seq(old(self).stack@).drop_last() =~= Object::view_seq(self.stack@));
                }
                self.last_popped_stack_elem = Some(val.copy());
                Ok(val)
            },
            None => {
                self.last_popped_stack_elem = Some(Object::Nil);
                Ok(Object::Nil)
            },
        }
    }

    fn read_operand(&self, ip: usize) -> (r: Option<u16>)
        ensures
            r == v_read(self@.code, ip as nat),
    {
        if ip < self.instructions.len() && self.instructions.len() - ip >= 2 {
            let hi = self.instructions[ip] as u16;
            let lo = self.instructions[ip + 1] as u16;
            Some(hi * 256 + lo)
        } else {
            None
        }
    }

    fn execute_binary_operation(&mut self, op: Opcode) -> (r: Result<(), VmError>)
        ensures
            (final(self)@, r) == v_binary(old(self)@, op),
    {
        let right = match self.pop() {
            Ok(v) => v,
            Err(e) => { return Err(e); },
        };
        let left = match self.pop() {
            Ok(v) => v,
            Err(e) => { return Err(e); },
        };
        if op == Opcode::OpEqual {
            let same = left.equals(&right);
            return self.push(Object::Boolean(same));
        }
        if op == Opcode::OpNotEqual {
            let same = left.equals(&right);
            return self.push(Object::Boolean(!same));
        }
        match (&left, &right) {
            (Object::Number(a), Object::Number(b)) => {
                let a = *a;
                let b = *b;
                if op == Opcode::OpGreaterThan {
                    return self.push(Object::Boolean(a > b));
                }
                let v = match op {
                    Opcode::OpAdd => a.checked_add(b),
                    Opcode::OpSub => a.checked_sub(b),
                    Opcode::OpMul => a.checked_mul(b),
                    _ => a.checked_div(b),
                };
                match v {
                    Some(v) => self.push(Object::Number(v)),
                    None => Err(VmError::InvalidOperation),
                }
            },
            _ => Err(VmError::InvalidOperation),
        }
    }

    fn execute_unary_operation(&mut self, op: Opcode) -> (r: Result<(), VmError>)
        ensures
            (final(self)@, r) == v_unary(old(self)@, op),
    {
        let v = match self.pop() {
            Ok(v) => v,
            Err(e) => { return Err(e); },
        };
        match (op, &v) {
            (Opcode::OpBang, Object::Boolean(b)) => self.push(Object::Boolean(!*b)),
            (Opcode::OpBang, Object::Nil) => self.push(Object::Boolean(true)),
            (Opcode::OpMinus, Object::Number(n)) => match 0i64.checked_sub(*n) {
                Some(m) => self.push(Object::Number(m)),
                None => Err(VmError::InvalidOperation),
            },
            _ => Err(VmError::InvalidOperation),
        }
    }

    fn execute_operation(&mut self, opcode: Opcode, ip: usize) -> (r: Result<usize, VmError>)
        ensures
            (final(self)@, match r { Ok(n) => Ok(n as nat), Err(e) => Err(e) }) == v_exec(old(self)@, opcode, ip as nat),
    {
        proof { Object::lemma_view_seq(self.constants@); }
        let n = self.instructions.len();
        assert(self@.code.len() == n);
        match opcode {
            Opcode::Constant => {
                let idx = match self.read_operand(ip) {
                    Some(i) => i,
                    None => { return Err(VmError::UnexpectedError); },
                };
                if (idx as usize) < self.constants.len() {
                    let v = self.constants[idx as usize].copy();
                    match self.push(v) {
                        Ok(_) => Ok(ip + 2),
                        Err(e) => Err(e),
                    }
                } else {
                    Err(VmError::UnexpectedError)
                }
            },
            Opcode::OpAdd | Opcode::OpSub | Opcode::OpMul | Opcode::OpDiv
            | Opcode::OpEqual | Opcode::OpNotEqual | Opcode::OpGreaterThan => {
                match self.execute_binary_operation(opcode) {
                    Ok(_) => Ok(ip),
                    Err(e) => Err(e),
                }
            },
            Opcode::OpPop => match self.pop() {
                Ok(_) => Ok(ip),
                Err(e) => Err(e),
            },
            Opcode::OpMinus | Opcode::OpBang => match self.execute_unary_operation(opcode) {
                Ok(_) => Ok(ip),
                Err(e) => Err(e),
            },
            Opcode::OpTrue => match self.push(Object::Boolean(true)) {
                Ok(_) => Ok(ip),
                Err(e) => Err(e),
            },
            Opcode::OpFalse => match self.push(Object::Boolean(false)) {
                Ok(_) => Ok(ip),
                Err(e) => Err(e),
            },
            Opcode::OpNone => match self.push(Object::Nil) {
                Ok(_) => Ok(ip),
                Err(e) => Err(e),
            },
            Opcode::OpJump => match self.read_operand(ip) {
                Some(t) => Ok(t as usize),
                None => Err(VmError::UnexpectedError),
            },
            Opcode::OpJumpNotTruthy => {
                let t = match self.read_operand(ip) {
                    Some(t) => t,
                    None => { return Err(VmError::UnexpectedError); },
                };
                match self.pop() {
                    Ok(c) => {
                        let truthy = match c {
                            Object::Boolean(true) => true,
                            _ => false,
                        };
                        if truthy { Ok(ip + 2) } else { Ok(t as usize) }
                    },
                    Err(e) => Err(e),
                }
            },
            Opcode::OpSetGlobal | Opcode::OpGetGlobal => Err(VmError::InvalidOperation),
        }
    }

    /// Runs the code from its first instruction until its end or an error.
    pub fn run(&mut self) -> (r: Result<(), VmError>)
        ensures
            (final(self)@, r) == v_run(old(self)@, 0, VM_FUEL as nat),
    {
        let mut ip: usize = 0;
        let mut fuel: u64 = VM_FUEL;
        let ghost target = v_run(self@, 0, VM_FUEL as nat);
        loop
            invariant
                self@.code == old(self)@.code,
                v_run(self@, ip as nat, fuel as nat) == target,
                target == v_run(old(self)@, 0, VM_FUEL as nat),
            decreases fuel,
        {
            if ip >= self.instructions.len() {
                return Ok(());
            }
            if fuel == 0 {
                return Err(VmError::UnexpectedError);
            }
            let op = match Opcode::from_byte(self.instructions[ip]) {
                Some(op) => op,
                None => { return Err(VmError::InvalidOperation); },
            };
            match self.execute_operation(op, ip + 1) {
                Ok(next) => { ip = next; },
                Err(e) => { return Err(e); },
            }
            fuel = fuel - 1;
        }
    }
}

} // verus!
