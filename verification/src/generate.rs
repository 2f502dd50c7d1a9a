//! The code generator: program syntax tree in, assembly text out.
//!
//! A depth-first tree walk with an explicit symbol table and a
//! monotonically increasing label counter, so labels are pairwise
//! distinct across the whole program. Expression evaluation follows a
//! stack-machine discipline: the left operand is saved on the runtime
//! stack while the right one is evaluated into the result register.
//! Logical AND/OR short-circuit through conditional jumps. Every
//! executable method returns exactly the value of its specification
//! mirror, so generation is deterministic. A syntax-tree shape with no
//! translation (a call, an address-of, a postfix assignment) is rejected
//! with Unsupported-Construct, never skipped.
use vstd::prelude::*;
use vstd::string::StringExecFns;
use crate::error::CompileError;
use crate::error::ErrV;
use crate::oper::Primitive;
use crate::oper::Variable;
use crate::oper::VariableV;
use crate::oper::BinaryOp;
use crate::oper::UnaryOp;
use crate::oper::Expression;
use crate::oper::ExprV;
use crate::oper::Statement;
use crate::oper::StmtV;
use crate::oper::Function;
use crate::oper::FunctionV;
use crate::oper::Program;
use crate::oper::ProgramV;
use crate::oper::view_expr;
use crate::oper::view_stmt;
use crate::oper::view_stmt_seq;
use crate::oper::view_func;
use crate::oper::view_func_seq;
use crate::oper::view_program;

verus! {

broadcast use vstd::seq::axiom_seq_index_decreases;

/// The decimal digit character for `d` in [0, 10).
pub open spec fn dec_digit(d: nat) -> char {
    if d == 0 {
        '0'
    } else if d == 1 {
        '1'
    } else if d == 2 {
        '2'
    } else if d == 3 {
        '3'
    } else if d == 4 {
        '4'
    } else if d == 5 {
        '5'
    } else if d == 6 {
        '6'
    } else if d == 7 {
        '7'
    } else if d == 8 {
        '8'
    } else {
        '9'
    }
}

/// The decimal spelling of `n`, most significant digit first.
pub open spec fn spec_dec(n: nat) -> Seq<char>
    decreases n,
{
    if n < 10 {
        seq![dec_digit(n)]
    } else {
        spec_dec(n / 10) + seq![dec_digit(n % 10)]
    }
}

/// The spelling of one digit.
fn digit_str(d: u64) -> (r: &'static str)
    requires
        d < 10,
    ensures
        r@ == seq![dec_digit(d as nat)],
{
    proof {
        reveal_strlit("0");
        reveal_strlit("1");
        reveal_strlit("2");
        reveal_strlit("3");
        reveal_strlit("4");
        reveal_strlit("5");
        reveal_strlit("6");
        reveal_strlit("7");
        reveal_strlit("8");
        reveal_strlit("9");
        assert("0"@ =~= seq!['0']);
        assert("1"@ =~= seq!['1']);
        assert("2"@ =~= seq!['2']);
        assert("3"@ =~= seq!['3']);
        assert("4"@ =~= seq!['4']);
        assert("5"@ =~= seq!['5']);
        assert("6"@ =~= seq!['6']);
        assert("7"@ =~= seq!['7']);
        assert("8"@ =~= seq!['8']);
        assert("9"@ =~= seq!['9']);
    }
    if d == 0 {
        "0"
    } else if d == 1 {
        "1"
    } else if d == 2 {
        "2"
    } else if d == 3 {
        "3"
    } else if d == 4 {
        "4"
    } else if d == 5 {
        "5"
    } else if d == 6 {
        "6"
    } else if d == 7 {
        "7"
    } else if d == 8 {
        "8"
    } else {
        "9"
    }
}

/// The decimal spelling of `n` as an owned string.
pub fn u64_to_string(n: u64) -> (s: String)
    ensures
        s@ == spec_dec(n as nat),
    decreases n,
{
    if n < 10 {
        String::from_str(digit_str(n))
    } else {
        let mut s = u64_to_string(n / 10);
        s.append(digit_str(n % 10));
        s
    }
}

/// Addition that stops at the top of the 64-bit range instead of
/// wrapping, keeping stack offsets and label counters well defined on
/// any input.
pub open spec fn sat_add(a: u64, b: u64) -> u64 {
    if a + b > u64::MAX {
        u64::MAX
    } else {
        (a + b) as u64
    }
}

/// Addition that stops at the top of the 64-bit range.
pub fn sat_add_exec(a: u64, b: u64) -> (r: u64)
    ensures
        r == sat_add(a, b),
{
    if a > u64::MAX - b {
        u64::MAX
    } else {
        a + b
    }
}

/// The storage size in bytes of a scalar of this class.
pub open spec fn spec_prim_size(p: Primitive) -> u64 {
    match p {
        Primitive::Int => 4,
        Primitive::Byte => 1,
    }
}

/// The storage size in bytes of a scalar of this class.
pub fn prim_size(p: Primitive) -> (r: u64)
    ensures
        r == spec_prim_size(p),
{
    match p {
        Primitive::Int => 4,
        Primitive::Byte => 1,
    }
}

/// The bytes of stack storage the declarations of one statement need,
/// nested blocks included.
pub open spec fn spec_stmt_size(s: StmtV) -> u64
    decreases s, 0nat,
{
    match s {
        StmtV::Declare(v, _) => spec_prim_size(v.size),
        StmtV::If(_, t, None) => spec_stmt_size(*t),
        StmtV::If(_, t, Some(f)) => sat_add(spec_stmt_size(*t), spec_stmt_size(*f)),
        StmtV::While(_, b) => spec_stmt_size(*b),
        StmtV::Compound(ss) => spec_stmts_size_from(ss, 0),
        _ => 0,
    }
}

/// The bytes of stack storage the declarations of the statements from
/// index `i` on need.
pub open spec fn spec_stmts_size_from(ss: Seq<StmtV>, i: nat) -> u64
    decreases ss, ss.len() - i,
{
    if i >= ss.len() {
        0
    } else {
        sat_add(spec_stmt_size(ss[i as int]), spec_stmts_size_from(ss, (i + 1) as nat))
    }
}

/// The bytes of stack storage one statement's declarations need.
pub fn stmt_size(s: &Statement) -> (r: u64)
    ensures
        r == spec_stmt_size(view_stmt(*s)),
    decreases *s, 0nat,
{
    match s {
        Statement::Declare(v, _) => prim_size(v.size),
        Statement::If(_, t, None) => stmt_size(t),
        Statement::If(_, t, Some(f)) => sat_add_exec(stmt_size(t), stmt_size(f)),
        Statement::While(_, b) => stmt_size(b),
        Statement::Compound(ss) => stmts_size_from(ss, 0),
        _ => 0,
    }
}

/// The bytes of stack storage the statements from index `i` on need.
pub fn stmts_size_from(ss: &Vec<Statement>, i: usize) -> (r: u64)
    requires
        i <= ss@.len(),
    ensures
        r == spec_stmts_size_from(view_stmt_seq(ss@), i as nat),
    decreases ss@, ss@.len() - i,
{
    if i >= ss.len() {
        0
    } else {
        let first = stmt_size(&ss[i]);
        sat_add_exec(first, stmts_size_from(ss, i + 1))
    }
}

/// Whether a top-level return statement exists among these statements;
/// the synthetic trailing epilogue is omitted when one does.
pub open spec fn spec_has_return(ss: Seq<StmtV>, i: nat) -> bool
    decreases ss.len() - i,
{
    if i >= ss.len() {
        false
    } else if ss[i as int] is Return {
        true
    } else {
        spec_has_return(ss, (i + 1) as nat)
    }
}

/// Whether a top-level return statement exists from index `i` on.
pub fn has_return_from(ss: &Vec<Statement>, i: usize) -> (r: bool)
    requires
        i <= ss@.len(),
    ensures
        r == spec_has_return(view_stmt_seq(ss@), i as nat),
    decreases ss@.len() - i,
{
    if i >= ss.len() {
        false
    } else {
        let is_ret = match &ss[i] {
            Statement::Return(_) => true,
            _ => false,
        };
        if is_ret {
            true
        } else {
            has_return_from(ss, i + 1)
        }
    }
}

/// One symbol table entry: a name, its frame offset (the value sits at
/// `-offset(%rbp)`), and its storage class.
pub struct SymEntry {
    pub name: String,
    pub offset: u64,
    pub size: Primitive,
}

/// Mathematical image of a symbol table entry.
pub struct SymEntryV {
    pub name: Seq<char>,
    pub offset: u64,
    pub size: Primitive,
}

impl DeepView for SymEntry {
    type V = SymEntryV;

    open spec fn deep_view(&self) -> SymEntryV {
        SymEntryV { name: self.name@, offset: self.offset, size: self.size }
    }
}

/// The image of a sequence of symbol table entries, elementwise.
pub open spec fn view_sym_seq(s: Seq<SymEntry>) -> Seq<SymEntryV> {
    Seq::new(s.len(), |i: int| s[i].deep_view())
}

/// The entry a name resolves to among the first `n` entries, later
/// (inner) declarations shadowing earlier (outer) ones.
pub open spec fn spec_lookup(st: Seq<SymEntryV>, name: Seq<char>, n: nat) -> Option<SymEntryV>
    decreases n,
{
    if n == 0 || n > st.len() {
        None
    } else if st[n - 1].name == name {
        Some(st[n - 1])
    } else {
        spec_lookup(st, name, (n - 1) as nat)
    }
}

/// The symbol table of one function: declarations in document order;
/// a block's own entries are cut back off when its scope ends.
pub struct SymTab {
    pub entries: Vec<SymEntry>,
}

impl SymTab {
    /// The images of the entries.
    pub closed spec fn view_entries(&self) -> Seq<SymEntryV> {
        view_sym_seq(self.entries@)
    }

    pub fn new() -> (r: SymTab)
        ensures
            r.view_entries() =~= Seq::<SymEntryV>::empty(),
            r.entries@.len() == 0,
    {
        SymTab { entries: Vec::new() }
    }

    /// Record a declaration, shadowing any earlier entry of the name.
    pub fn push(&mut self, name: String, offset: u64, size: Primitive)
        ensures
            final(self).view_entries() == old(self).view_entries().push(
                SymEntryV { name: name@, offset, size },
            ),
            final(self).entries@.len() == old(self).entries@.len() + 1,
            old(self).entries@.is_prefix_of(final(self).entries@),
    {
        self.entries.push(SymEntry { name, offset, size });
        proof {
            assert(self.entries@.subrange(0, old(self).entries@.len() as int) =~= old(
                self,
            ).entries@);
            assert(view_sym_seq(self.entries@) =~= view_sym_seq(old(self).entries@).push(
                self.entries@.last().deep_view(),
            ));
        }
    }

    /// Cut the table back to its first `n` entries, ending a scope.
    pub fn truncate(&mut self, n: usize)
        requires
            n <= old(self).entries@.len(),
        ensures
            final(self).entries@ == old(self).entries@.subrange(0, n as int),
            final(self).view_entries() =~= old(self).view_entries().subrange(0, n as int),
    {
        self.entries.truncate(n);
        proof {
            assert(view_sym_seq(self.entries@) =~= view_sym_seq(old(self).entries@).subrange(
                0,
                n as int,
            ));
        }
    }

    /// The offset and storage class a name resolves to, if any.
    pub fn lookup(&self, name: &String) -> (r: Option<(u64, Primitive)>)
        ensures
            match spec_lookup(self.view_entries(), name@, self.view_entries().len()) {
                Some(e) => r == Some((e.offset, e.size)),
                None => r is None,
            },
    {
        let n = self.entries.len();
        self.lookup_upto(name, n)
    }

    /// The entry a name resolves to among the first `n` entries.
    fn lookup_upto(&self, name: &String, n: usize) -> (r: Option<(u64, Primitive)>)
        requires
            n <= self.entries@.len(),
        ensures
            match spec_lookup(self.view_entries(), name@, n as nat) {
                Some(e) => r == Some((e.offset, e.size)),
                None => r is None,
            },
        decreases n,
    {
        if n == 0 {
            None
        } else {
            let e = &self.entries[n - 1];
            if e.name.eq(name) {
                Some((e.offset, e.size))
            } else {
                self.lookup_upto(name, n - 1)
            }
        }
    }
}

/// The instructions that load a resolved name into the result register.
pub open spec fn load_var_lines(e: SymEntryV) -> Seq<Seq<char>> {
    match e.size {
        Primitive::Int => seq!["movl\t-"@ + spec_dec(e.offset as nat) + "(%rbp), %eax"@],
        Primitive::Byte => seq!["movzbl\t-"@ + spec_dec(e.offset as nat) + "(%rbp), %eax"@],
    }
}

/// The instructions that store the result register into a resolved name.
pub open spec fn store_var_lines(e: SymEntryV) -> Seq<Seq<char>> {
    match e.size {
        Primitive::Int => seq!["movl\t%eax, -"@ + spec_dec(e.offset as nat) + "(%rbp)"@],
        Primitive::Byte => seq!["movb\t%al, -"@ + spec_dec(e.offset as nat) + "(%rbp)"@],
    }
}

/// The instructions for a prefix operator, its operand in the result
/// register.
pub open spec fn unop_lines(op: UnaryOp) -> Seq<Seq<char>> {
    match op {
        UnaryOp::Negation => seq!["negl\t%eax"@],
        UnaryOp::BitComp => seq!["notl\t%eax"@],
        UnaryOp::LogicalNeg => seq!["cmpl\t$0, %eax"@, "movl\t$0, %eax"@, "sete\t%al"@],
    }
}

/// The instructions for a plain infix operator, the left operand in
/// `%eax` and the right one in `%ecx`. Short-circuit and comma forms
/// are compiled separately.
pub open spec fn binop_lines(op: BinaryOp) -> Seq<Seq<char>> {
    match op {
        BinaryOp::Addition => seq!["addl\t%ecx, %eax"@],
        BinaryOp::Subtraction => seq!["subl\t%ecx, %eax"@],
        BinaryOp::Multiplication => seq!["imull\t%ecx, %eax"@],
        BinaryOp::Division => seq!["cltd"@, "idivl\t%ecx"@],
        BinaryOp::Modulus => seq!["cltd"@, "idivl\t%ecx"@, "movl\t%edx, %eax"@],
        BinaryOp::Equal => seq!["cmpl\t%ecx, %eax"@, "movl\t$0, %eax"@, "sete\t%al"@],
        BinaryOp::NotEqual => seq!["cmpl\t%ecx, %eax"@, "movl\t$0, %eax"@, "setne\t%al"@],
        BinaryOp::LessThan => seq!["cmpl\t%ecx, %eax"@, "movl\t$0, %eax"@, "setl\t%al"@],
        BinaryOp::LessThanOrEqual => seq!["cmpl\t%ecx, %eax"@, "movl\t$0, %eax"@, "setle\t%al"@],
        BinaryOp::GreaterThan => seq!["cmpl\t%ecx, %eax"@, "movl\t$0, %eax"@, "setg\t%al"@],
        BinaryOp::GreaterThanOrEqual => seq![
            "cmpl\t%ecx, %eax"@,
            "movl\t$0, %eax"@,
            "setge\t%al"@,
        ],
        BinaryOp::BitwiseLeft => seq!["sall\t%cl, %eax"@],
        BinaryOp::BitwiseRight => seq!["sarl\t%cl, %eax"@],
        BinaryOp::BitwiseAnd => seq!["andl\t%ecx, %eax"@],
        BinaryOp::BitwiseXor => seq!["xorl\t%ecx, %eax"@],
        BinaryOp::BitwiseOr => seq!["orl\t%ecx, %eax"@],
        _ => Seq::empty(),
    }
}

/// The function epilogue: restore the frame pointer and return.
pub open spec fn epilogue_lines() -> Seq<Seq<char>> {
    seq!["movq\t%rbp, %rsp"@, "popq\t%rbp"@, "ret"@]
}

/// The instructions and final label counter for one expression, or the
/// error that stops generation: an undeclared name is Unresolved-Symbol;
/// a call, an address-of or a postfix assignment is Unsupported-Construct.
pub open spec fn spec_gen_expr(e: ExprV, st: Seq<SymEntryV>, cnt: u64) -> Result<
    (Seq<Seq<char>>, u64),
    ErrV,
>
    decreases e,
{
    match e {
        ExprV::Int(v) => Ok((seq!["movl\t$"@ + spec_dec(v as nat) + ", %eax"@], cnt)),
        ExprV::Char(v) => Ok((seq!["movl\t$"@ + spec_dec(v as nat) + ", %eax"@], cnt)),
        ExprV::Variable(name) => match spec_lookup(st, name, st.len()) {
            None => Err(ErrV::UnresolvedSymbol { name: name }),
            Some(en) => Ok((load_var_lines(en), cnt)),
        },
        ExprV::Assign(name, rhs) => match spec_gen_expr(*rhs, st, cnt) {
            Err(er) => Err(er),
            Ok(p) => match spec_lookup(st, name, st.len()) {
                None => Err(ErrV::UnresolvedSymbol { name: name }),
                Some(en) => Ok((p.0 + store_var_lines(en), p.1)),
            },
        },
        ExprV::UnaryOp(op, o) => match spec_gen_expr(*o, st, cnt) {
            Err(er) => Err(er),
            Ok(p) => Ok((p.0 + unop_lines(op), p.1)),
        },
        ExprV::BinaryOp(op, l, r) => {
            if op is Comma {
                match spec_gen_expr(*l, st, cnt) {
                    Err(er) => Err(er),
                    Ok(p) => match spec_gen_expr(*r, st, p.1) {
                        Err(er) => Err(er),
                        Ok(q) => Ok((p.0 + q.0, q.1)),
                    },
                }
            } else if op is And {
                let id = cnt;
                match spec_gen_expr(*l, st, sat_add(cnt, 1)) {
                    Err(er) => Err(er),
                    Ok(p) => match spec_gen_expr(*r, st, p.1) {
                        Err(er) => Err(er),
                        Ok(q) => Ok(
                            (
                                p.0 + seq![
                                    "cmpl\t$0, %eax"@,
                                    "je\t.Lfalse_"@ + spec_dec(id as nat),
                                ] + q.0 + seq![
                                    "cmpl\t$0, %eax"@,
                                    "je\t.Lfalse_"@ + spec_dec(id as nat),
                                    "movl\t$1, %eax"@,
                                    "jmp\t.Lend_"@ + spec_dec(id as nat),
                                    ".Lfalse_"@ + spec_dec(id as nat) + ":"@,
                                    "movl\t$0, %eax"@,
                                    ".Lend_"@ + spec_dec(id as nat) + ":"@,
                                ],
                                q.1,
                            ),
                        ),
                    },
                }
            } else if op is Or {
                let id = cnt;
                match spec_gen_expr(*l, st, sat_add(cnt, 1)) {
                    Err(er) => Err(er),
                    Ok(p) => match spec_gen_expr(*r, st, p.1) {
                        Err(er) => Err(er),
                        Ok(q) => Ok(
                            (
                                p.0 + seq![
                                    "cmpl\t$0, %eax"@,
                                    "jne\t.Ltrue_"@ + spec_dec(id as nat),
                                ] + q.0 + seq![
                                    "cmpl\t$0, %eax"@,
                                    "jne\t.Ltrue_"@ + spec_dec(id as nat),
                                    "movl\t$0, %eax"@,
                                    "jmp\t.Lend_"@ + spec_dec(id as nat),
                                    ".Ltrue_"@ + spec_dec(id as nat) + ":"@,
                                    "movl\t$1, %eax"@,
                                    ".Lend_"@ + spec_dec(id as nat) + ":"@,
                                ],
                                q.1,
                            ),
                        ),
                    },
                }
            } else {
                match spec_gen_expr(*l, st, cnt) {
                    Err(er) => Err(er),
                    Ok(p) => match spec_gen_expr(*r, st, p.1) {
                        Err(er) => Err(er),
                        Ok(q) => Ok(
                            (
                                p.0 + seq!["pushq\t%rax"@] + q.0 + seq![
                                    "movl\t%eax, %ecx"@,
                                    "popq\t%rax"@,
                                ] + binop_lines(op),
                                q.1,
                            ),
                        ),
                    },
                }
            }
        },
        ExprV::Ternary(c, t, f) => {
            let id = cnt;
            match spec_gen_expr(*c, st, sat_add(cnt, 1)) {
                Err(er) => Err(er),
                Ok(p) => match spec_gen_expr(*t, st, p.1) {
                    Err(er) => Err(er),
                    Ok(q) => match spec_gen_expr(*f, st, q.1) {
                        Err(er) => Err(er),
                        Ok(w) => Ok(
                            (
                                p.0 + seq![
                                    "cmpl\t$0, %eax"@,
                                    "je\t.Lelse_"@ + spec_dec(id as nat),
                                ] + q.0 + seq![
                                    "jmp\t.Lend_"@ + spec_dec(id as nat),
                                    ".Lelse_"@ + spec_dec(id as nat) + ":"@,
                                ] + w.0 + seq![".Lend_"@ + spec_dec(id as nat) + ":"@],
                                w.1,
                            ),
                        ),
                    },
                },
            }
        },
        _ => Err(ErrV::UnsupportedConstruct),
    }
}

/// The instructions, symbol table, next free offset and label counter
/// after one statement; an if, while or compound body keeps its own
/// declarations to itself, but storage and labels stay distinct across
/// the whole function.
pub open spec fn spec_gen_stmt(s: StmtV, st: Seq<SymEntryV>, off: u64, cnt: u64) -> Result<
    (Seq<Seq<char>>, Seq<SymEntryV>, u64, u64),
    ErrV,
>
    decreases s, 0nat,
{
    match s {
        StmtV::Declare(v, init) => {
            let new_off = sat_add(off, spec_prim_size(v.size));
            let en = SymEntryV { name: v.name, offset: new_off, size: v.size };
            match init {
                None => Ok((Seq::empty(), st.push(en), new_off, cnt)),
                Some(e) => match spec_gen_expr(e, st, cnt) {
                    Err(er) => Err(er),
                    Ok(p) => Ok((p.0 + store_var_lines(en), st.push(en), new_off, p.1)),
                },
            }
        },
        StmtV::Return(e) => match spec_gen_expr(e, st, cnt) {
            Err(er) => Err(er),
            Ok(p) => Ok((p.0 + epilogue_lines(), st, off, p.1)),
        },
        StmtV::Exp(e) => match spec_gen_expr(e, st, cnt) {
            Err(er) => Err(er),
            Ok(p) => Ok((p.0, st, off, p.1)),
        },
        StmtV::If(c, t, None) => {
            let id = cnt;
            match spec_gen_expr(c, st, sat_add(cnt, 1)) {
                Err(er) => Err(er),
                Ok(p) => match spec_gen_stmt(*t, st, off, p.1) {
                    Err(er) => Err(er),
                    Ok(q) => Ok(
                        (
                            p.0 + seq!["cmpl\t$0, %eax"@, "je\t.Lend_"@ + spec_dec(id as nat)]
                                + q.0 + seq![".Lend_"@ + spec_dec(id as nat) + ":"@],
                            st,
                            q.2,
                            q.3,
                        ),
                    ),
                },
            }
        },
        StmtV::If(c, t, Some(f)) => {
            let id = cnt;
            match spec_gen_expr(c, st, sat_add(cnt, 1)) {
                Err(er) => Err(er),
                Ok(p) => match spec_gen_stmt(*t, st, off, p.1) {
                    Err(er) => Err(er),
                    Ok(q) => match spec_gen_stmt(*f, st, q.2, q.3) {
                        Err(er) => Err(er),
                        Ok(w) => Ok(
                            (
                                p.0 + seq![
                                    "cmpl\t$0, %eax"@,
                                    "je\t.Lelse_"@ + spec_dec(id as nat),
                                ] + q.0 + seq![
                                    "jmp\t.Lend_"@ + spec_dec(id as nat),
                                    ".Lelse_"@ + spec_dec(id as nat) + ":"@,
                                ] + w.0 + seq![".Lend_"@ + spec_dec(id as nat) + ":"@],
                                st,
                                w.2,
                                w.3,
                            ),
                        ),
                    },
                },
            }
        },
        StmtV::While(c, b) => {
            let id = cnt;
            match spec_gen_expr(c, st, sat_add(cnt, 1)) {
                Err(er) => Err(er),
                Ok(p) => match spec_gen_stmt(*b, st, off, p.1) {
                    Err(er) => Err(er),
                    Ok(q) => Ok(
                        (
                            seq![".Lloop_"@ + spec_dec(id as nat) + ":"@] + p.0 + seq![
                                "cmpl\t$0, %eax"@,
                                "je\t.Lend_"@ + spec_dec(id as nat),
                            ] + q.0 + seq![
                                "jmp\t.Lloop_"@ + spec_dec(id as nat),
                                ".Lend_"@ + spec_dec(id as nat) + ":"@,
                            ],
                            st,
                            q.2,
                            q.3,
                        ),
                    ),
                },
            }
        },
        StmtV::Compound(ss) => match spec_gen_stmts_from(ss, 0, st, off, cnt) {
            Err(er) => Err(er),
            Ok(q) => Ok((q.0, st, q.2, q.3)),
        },
    }
}

/// The instructions, symbol table, next free offset and label counter
/// after the statements from index `i` on.
pub open spec fn spec_gen_stmts_from(
    ss: Seq<StmtV>,
    i: nat,
    st: Seq<SymEntryV>,
    off: u64,
    cnt: u64,
) -> Result<(Seq<Seq<char>>, Seq<SymEntryV>, u64, u64), ErrV>
    decreases ss, ss.len() - i,
{
    if i >= ss.len() {
        Ok((Seq::empty(), st, off, cnt))
    } else {
        match spec_gen_stmt(ss[i as int], st, off, cnt) {
            Err(er) => Err(er),
            Ok(p) => match spec_gen_stmts_from(ss, (i + 1) as nat, p.1, p.2, p.3) {
                Err(er) => Err(er),
                Ok(q) => Ok((p.0 + q.0, q.1, q.2, q.3)),
            },
        }
    }
}

/// The 32-bit argument register for parameter `i`.
pub open spec fn reg32(i: nat) -> Seq<char> {
    if i == 0 {
        "%edi"@
    } else if i == 1 {
        "%esi"@
    } else if i == 2 {
        "%edx"@
    } else if i == 3 {
        "%ecx"@
    } else if i == 4 {
        "%r8d"@
    } else {
        "%r9d"@
    }
}

/// The 8-bit argument register for parameter `i`.
pub open spec fn reg8(i: nat) -> Seq<char> {
    if i == 0 {
        "%dil"@
    } else if i == 1 {
        "%sil"@
    } else if i == 2 {
        "%dl"@
    } else if i == 3 {
        "%cl"@
    } else if i == 4 {
        "%r8b"@
    } else {
        "%r9b"@
    }
}

/// The instructions that spill the parameters from index `i` on into
/// their frame slots, and the table and next free offset after them; a
/// seventh parameter has no register and is Unsupported-Construct.
pub open spec fn spec_gen_params(args: Seq<VariableV>, i: nat, st: Seq<SymEntryV>, off: u64) -> Result<
    (Seq<Seq<char>>, Seq<SymEntryV>, u64),
    ErrV,
>
    decreases args.len() - i,
{
    if i >= args.len() {
        Ok((Seq::empty(), st, off))
    } else if i >= 6 {
        Err(ErrV::UnsupportedConstruct)
    } else {
        let v = args[i as int];
        let new_off = sat_add(off, spec_prim_size(v.size));
        let en = SymEntryV { name: v.name, offset: new_off, size: v.size };
        let line = match v.size {
            Primitive::Int => "movl\t"@ + reg32(i) + ", -"@ + spec_dec(new_off as nat)
                + "(%rbp)"@,
            Primitive::Byte => "movb\t"@ + reg8(i) + ", -"@ + spec_dec(new_off as nat)
                + "(%rbp)"@,
        };
        match spec_gen_params(args, (i + 1) as nat, st.push(en), new_off) {
            Err(er) => Err(er),
            Ok(q) => Ok((seq![line] + q.0, q.1, q.2)),
        }
    }
}

/// The bytes of stack storage the parameters from index `i` on need.
pub open spec fn spec_params_size(args: Seq<VariableV>, i: nat) -> u64
    decreases args.len() - i,
{
    if i >= args.len() {
        0
    } else {
        sat_add(spec_prim_size(args[i as int].size), spec_params_size(args, (i + 1) as nat))
    }
}

/// The instructions and final label counter for one function: prologue,
/// stack reservation sized by a pre-pass over every declaration,
/// parameter spills, the body, and a synthetic epilogue when no
/// top-level return exists.
pub open spec fn spec_gen_func(f: FunctionV, cnt: u64) -> Result<(Seq<Seq<char>>, u64), ErrV> {
    let total = sat_add(spec_params_size(f.args, 0), spec_stmts_size_from(f.statements, 0));
    match spec_gen_params(f.args, 0, Seq::empty(), 0) {
        Err(er) => Err(er),
        Ok(pp) => match spec_gen_stmts_from(f.statements, 0, pp.1, pp.2, cnt) {
            Err(er) => Err(er),
            Ok(bb) => {
                let head = seq![
                    ".globl _"@ + f.name,
                    "_"@ + f.name + ":"@,
                    "pushq\t%rbp"@,
                    "movq\t%rsp, %rbp"@,
                ];
                let sub: Seq<Seq<char>> = if total > 0 {
                    seq!["subq\t$"@ + spec_dec(total as nat) + ", %rsp"@]
                } else {
                    Seq::empty()
                };
                let tail: Seq<Seq<char>> = if spec_has_return(f.statements, 0) {
                    Seq::empty()
                } else {
                    epilogue_lines()
                };
                Ok((head + sub + pp.0 + bb.0 + tail, bb.3))
            },
        },
    }
}

/// The instructions and final label counter for the functions from
/// index `i` on.
pub open spec fn spec_gen_funcs_from(fs: Seq<FunctionV>, i: nat, cnt: u64) -> Result<
    (Seq<Seq<char>>, u64),
    ErrV,
>
    decreases fs.len() - i,
{
    if i >= fs.len() {
        Ok((Seq::empty(), cnt))
    } else {
        match spec_gen_func(fs[i as int], cnt) {
            Err(er) => Err(er),
            Ok(p) => match spec_gen_funcs_from(fs, (i + 1) as nat, p.1) {
                Err(er) => Err(er),
                Ok(q) => Ok((p.0 + q.0, q.1)),
            },
        }
    }
}

/// The assembly lines of a whole program, labels distinct across it.
pub open spec fn spec_gen_program(p: ProgramV) -> Result<Seq<Seq<char>>, ErrV> {
    match spec_gen_funcs_from(p.functions, 0, 0) {
        Err(er) => Err(er),
        Ok(q) => Ok(q.0),
    }
}

/// The lines from index `i` on joined by single newlines.
pub open spec fn spec_join(lines: Seq<Seq<char>>, i: nat) -> Seq<char>
    decreases lines.len() - i,
{
    if i >= lines.len() {
        Seq::empty()
    } else if i + 1 == lines.len() {
        lines[i as int]
    } else {
        lines[i as int] + "\n"@ + spec_join(lines, (i + 1) as nat)
    }
}

/// An assembly buffer: ordered lines of text, appended only, finalized
/// to one newline-joined string.
pub struct Assembly {
    buf: Vec<String>,
}

impl Assembly {
    /// The lines recorded so far.
    pub closed spec fn lines(&self) -> Seq<Seq<char>> {
        self.buf.deep_view()
    }

    pub fn new() -> (r: Assembly)
        ensures
            r.lines() =~= Seq::<Seq<char>>::empty(),
    {
        Assembly { buf: Vec::new() }
    }

    /// Append one line.
    pub fn add(&mut self, line: String)
        ensures
            final(self).lines() == old(self).lines().push(line@),
    {
        self.buf.push(line);
        proof {
            assert(self.buf.deep_view() =~= old(self).buf.deep_view().push(
                self.buf@.last().deep_view(),
            ));
        }
    }

    /// Append many lines in order.
    pub fn add_all(&mut self, strings: Vec<String>)
        ensures
            final(self).lines() == old(self).lines() + strings.deep_view(),
    {
        let ghost base = self.lines();
        let n = strings.len();
        let mut k: usize = 0;
        while k < n
            invariant
                k <= n,
                n == strings@.len(),
                self.lines() =~= base + strings.deep_view().take(k as int),
            decreases n - k,
        {
            let s = strings[k].clone();
            let ghost before = self.lines();
            self.add(s);
            proof {
                assert(before.push(strings@[k as int]@) =~= base + strings.deep_view().take(
                    k as int + 1,
                ));
            }
            k = k + 1;
        }
        proof {
            assert(base + strings.deep_view().take(n as int) =~= base + strings.deep_view());
        }
    }

    /// The lines joined into one text by single newlines.
    pub fn build(&self) -> (r: String)
        ensures
            r@ == spec_join(self.lines(), 0),
    {
        self.build_from(0)
    }

    /// The lines from index `i` on joined by single newlines.
    fn build_from(&self, i: usize) -> (r: String)
        requires
            i <= self.buf@.len(),
        ensures
            r@ == spec_join(self.lines(), i as nat),
        decreases self.buf@.len() - i,
    {
        let n = self.buf.len();
        if i >= n {
            String::new()
        } else if i + 1 == n {
            self.buf[i].clone()
        } else {
            let mut s = self.buf[i].clone();
            s.append("\n");
            let rest = self.build_from(i + 1);
            s.append(rest.as_str());
            s
        }
    }
}

/// The code generator: an assembly buffer and the label counter that
/// keeps every label of the program distinct.
pub struct Generator {
    buf: Assembly,
    counter: u64,
}

impl Generator {
    /// The lines emitted so far.
    pub closed spec fn lines(&self) -> Seq<Seq<char>> {
        self.buf.lines()
    }

    /// The label counter.
    pub closed spec fn counter(&self) -> u64 {
        self.counter
    }

    pub fn new() -> (r: Generator)
        ensures
            r.lines() =~= Seq::<Seq<char>>::empty(),
            r.counter() == 0,
    {
        Generator { buf: Assembly::new(), counter: 0 }
    }

    /// Emit one constant line.
    fn emit_str(&mut self, s: &str)
        ensures
            final(self).lines() == old(self).lines().push(s@),
            final(self).counter() == old(self).counter(),
    {
        self.buf.add(String::from_str(s));
    }

    /// Emit `pre`, a decimal number and `post` as one line.
    fn emit_num(&mut self, pre: &str, n: u64, post: &str)
        ensures
            final(self).lines() == old(self).lines().push(pre@ + spec_dec(n as nat) + post@),
            final(self).counter() == old(self).counter(),
    {
        let mut l = String::from_str(pre);
        let num = u64_to_string(n);
        l.append(num.as_str());
        l.append(post);
        self.buf.add(l);
    }

    /// Emit `pre` and a decimal number as one line.
    fn emit_pre_num(&mut self, pre: &str, n: u64)
        ensures
            final(self).lines() == old(self).lines().push(pre@ + spec_dec(n as nat)),
            final(self).counter() == old(self).counter(),
    {
        let mut l = String::from_str(pre);
        let num = u64_to_string(n);
        l.append(num.as_str());
        self.buf.add(l);
    }

    /// Emit `pre` and a name as one line.
    fn emit_pre_name(&mut self, pre: &str, name: &String)
        ensures
            final(self).lines() == old(self).lines().push(pre@ + name@),
            final(self).counter() == old(self).counter(),
    {
        let mut l = String::from_str(pre);
        l.append(name.as_str());
        self.buf.add(l);
    }

    /// Emit `pre`, a name and `post` as one line.
    fn emit_name_post(&mut self, pre: &str, name: &String, post: &str)
        ensures
            final(self).lines() == old(self).lines().push(pre@ + name@ + post@),
            final(self).counter() == old(self).counter(),
    {
        let mut l = String::from_str(pre);
        l.append(name.as_str());
        l.append(post);
        self.buf.add(l);
    }

    /// Take a fresh label number; the counter never goes back down.
    fn fresh_label(&mut self) -> (id: u64)
        ensures
            id == old(self).counter(),
            final(self).counter() == sat_add(old(self).counter(), 1),
            final(self).lines() == old(self).lines(),
    {
        let id = self.counter;
        self.counter = sat_add_exec(self.counter, 1);
        id
    }

    /// Emit the instructions that load a resolved name or store the
    /// result register into it.
    fn emit_access(&mut self, offset: u64, size: Primitive, store: bool)
        ensures
            final(self).counter() == old(self).counter(),
            final(self).lines() == old(self).lines() + (if store {
                store_var_lines(SymEntryV { name: Seq::empty(), offset, size })
            } else {
                load_var_lines(SymEntryV { name: Seq::empty(), offset, size })
            }),
    {
        let ghost base = self.lines();
        if store {
            match size {
                Primitive::Int => self.emit_num("movl\t%eax, -", offset, "(%rbp)"),
                Primitive::Byte => self.emit_num("movb\t%al, -", offset, "(%rbp)"),
            }
        } else {
            match size {
                Primitive::Int => self.emit_num("movl\t-", offset, "(%rbp), %eax"),
                Primitive::Byte => self.emit_num("movzbl\t-", offset, "(%rbp), %eax"),
            }
        }
        proof {
            assert(final(self).lines() =~= base + seq![final(self).lines().last()]);
        }
    }

    /// Emit the instructions for one expression, its value left in the
    /// result register.
    #[verifier::rlimit(100)]
    fn gen_expr(&mut self, e: &Expression, st: &SymTab) -> (r: Result<(), CompileError>)
        ensures
            match spec_gen_expr(view_expr(*e), st.view_entries(), old(self).counter()) {
                Ok(p) => r matches Ok(u) && final(self).lines() == old(self).lines() + p.0
                    && final(self).counter() == p.1,
                Err(er) => r matches Err(e2) && e2.deep_view() == er,
            },
        decreases *e,
    {
        let ghost base = self.lines();
        match e {
            Expression::Int(v) => {
                self.emit_num("movl\t$", *v as u64, ", %eax");
                proof {
                    assert(self.lines() =~= base + seq![self.lines().last()]);
                }
                Ok(())
            },
            Expression::Char(v) => {
                self.emit_num("movl\t$", *v as u64, ", %eax");
                proof {
                    assert(self.lines() =~= base + seq![self.lines().last()]);
                }
                Ok(())
            },
            Expression::Variable(name) => match st.lookup(name) {
                None => Err(CompileError::UnresolvedSymbol { name: name.clone() }),
                Some((offset, size)) => {
                    self.emit_access(offset, size, false);
                    proof {
                        match spec_lookup(st.view_entries(), name@, st.view_entries().len()) {
                            Some(en) => {
                                assert(load_var_lines(
                                    SymEntryV { name: Seq::empty(), offset, size },
                                ) =~= load_var_lines(en));
                            },
                            None => {},
                        }
                    }
                    Ok(())
                },
            },
            Expression::Assign(name, rhs) => match self.gen_expr(rhs, st) {
                Err(er) => Err(er),
                Ok(_) => match st.lookup(name) {
                    None => Err(CompileError::UnresolvedSymbol { name: name.clone() }),
                    Some((offset, size)) => {
                        self.emit_access(offset, size, true);
                        proof {
                            match spec_lookup(st.view_entries(), name@, st.view_entries().len()) {
                                Some(en) => {
                                    assert(store_var_lines(
                                        SymEntryV { name: Seq::empty(), offset, size },
                                    ) =~= store_var_lines(en));
                                },
                                None => {},
                            }
                        }
                        Ok(())
                    },
                },
            },
            Expression::UnaryOp(op, o) => match self.gen_expr(o, st) {
                Err(er) => Err(er),
                Ok(_) => {
                    match op {
                        UnaryOp::Negation => self.emit_str("negl\t%eax"),
                        UnaryOp::BitComp => self.emit_str("notl\t%eax"),
                        UnaryOp::LogicalNeg => {
                            self.emit_str("cmpl\t$0, %eax");
                            self.emit_str("movl\t$0, %eax");
                            self.emit_str("sete\t%al");
                        },
                    }
                    proof {
                        match spec_gen_expr(view_expr(**o), st.view_entries(), old(self).counter())
                             {
                            Ok(p) => {
                                assert(self.lines() =~= base + (p.0 + unop_lines(*op)));
                            },
                            Err(_) => {},
                        }
                    }
                    Ok(())
                },
            },
            Expression::BinaryOp(op, l, rgt) => {
                if matches!(op, BinaryOp::Comma) {
                    match self.gen_expr(l, st) {
                        Err(er) => Err(er),
                        Ok(_) => {
                            match self.gen_expr(rgt, st) {
                                Err(er) => Err(er),
                                Ok(_) => {
                                    proof {
                                        match spec_gen_expr(
                                            view_expr(*e),
                                            st.view_entries(),
                                            old(self).counter(),
                                        ) {
                                            Ok(p) => {
                                                assert(self.lines() =~= base + p.0);
                                            },
                                            Err(_) => {},
                                        }
                                    }
                                    Ok(())
                                },
                            }
                        },
                    }
                } else if matches!(op, BinaryOp::And) {
                    let id = self.fresh_label();
                    match self.gen_expr(l, st) {
                        Err(er) => Err(er),
                        Ok(_) => {
                            self.emit_str("cmpl\t$0, %eax");
                            self.emit_pre_num("je\t.Lfalse_", id);
                            match self.gen_expr(rgt, st) {
                                Err(er) => Err(er),
                                Ok(_) => {
                                    self.emit_str("cmpl\t$0, %eax");
                                    self.emit_pre_num("je\t.Lfalse_", id);
                                    self.emit_str("movl\t$1, %eax");
                                    self.emit_pre_num("jmp\t.Lend_", id);
                                    self.emit_num(".Lfalse_", id, ":");
                                    self.emit_str("movl\t$0, %eax");
                                    self.emit_num(".Lend_", id, ":");
                                    proof {
                                        match spec_gen_expr(
                                            view_expr(*e),
                                            st.view_entries(),
                                            old(self).counter(),
                                        ) {
                                            Ok(p) => {
                                                assert(self.lines() =~= base + p.0);
                                            },
                                            Err(_) => {},
                                        }
                                    }
                                    Ok(())
                                },
                            }
                        },
                    }
                } else if matches!(op, BinaryOp::Or) {
                    let id = self.fresh_label();
                    match self.gen_expr(l, st) {
                        Err(er) => Err(er),
                        Ok(_) => {
                            self.emit_str("cmpl\t$0, %eax");
                            self.emit_pre_num("jne\t.Ltrue_", id);
                            match self.gen_expr(rgt, st) {
                                Err(er) => Err(er),
                                Ok(_) => {
                                    self.emit_str("cmpl\t$0, %eax");
                                    self.emit_pre_num("jne\t.Ltrue_", id);
                                    self.emit_str("movl\t$0, %eax");
                                    self.emit_pre_num("jmp\t.Lend_", id);
                                    self.emit_num(".Ltrue_", id, ":");
                                    self.emit_str("movl\t$1, %eax");
                                    self.emit_num(".Lend_", id, ":");
                                    proof {
                                        match spec_gen_expr(
                                            view_expr(*e),
                                            st.view_entries(),
                                            old(self).counter(),
                                        ) {
                                            Ok(p) => {
                                                assert(self.lines() =~= base + p.0);
                                            },
                                            Err(_) => {},
                                        }
                                    }
                                    Ok(())
                                },
                            }
                        },
                    }
                } else {
                    match self.gen_expr(l, st) {
                        Err(er) => Err(er),
                        Ok(_) => {
                            self.emit_str("pushq\t%rax");
                            match self.gen_expr(rgt, st) {
                                Err(er) => Err(er),
                                Ok(_) => {
                                    self.emit_str("movl\t%eax, %ecx");
                                    self.emit_str("popq\t%rax");
                                    match op {
                                        BinaryOp::Addition => self.emit_str("addl\t%ecx, %eax"),
                                        BinaryOp::Subtraction => self.emit_str("subl\t%ecx, %eax"),
                                        BinaryOp::Multiplication => self.emit_str(
                                            "imull\t%ecx, %eax",
                                        ),
                                        BinaryOp::Division => {
                                            self.emit_str("cltd");
                                            self.emit_str("idivl\t%ecx");
                                        },
                                        BinaryOp::Modulus => {
                                            self.emit_str("cltd");
                                            self.emit_str("idivl\t%ecx");
                                            self.emit_str("movl\t%edx, %eax");
                                        },
                                        BinaryOp::Equal => {
                                            self.emit_str("cmpl\t%ecx, %eax");
                                            self.emit_str("movl\t$0, %eax");
                                            self.emit_str("sete\t%al");
                                        },
                                        BinaryOp::NotEqual => {
                                            self.emit_str("cmpl\t%ecx, %eax");
                                            self.emit_str("movl\t$0, %eax");
                                            self.emit_str("setne\t%al");
                                        },
                                        BinaryOp::LessThan => {
                                            self.emit_str("cmpl\t%ecx, %eax");
                                            self.emit_str("movl\t$0, %eax");
                                            self.emit_str("setl\t%al");
                                        },
                                        BinaryOp::LessThanOrEqual => {
                                            self.emit_str("cmpl\t%ecx, %eax");
                                            self.emit_str("movl\t$0, %eax");
                                            self.emit_str("setle\t%al");
                                        },
                                        BinaryOp::GreaterThan => {
                                            self.emit_str("cmpl\t%ecx, %eax");
                                            self.emit_str("movl\t$0, %eax");
                                            self.emit_str("setg\t%al");
                                        },
                                        BinaryOp::GreaterThanOrEqual => {
                                            self.emit_str("cmpl\t%ecx, %eax");
                                            self.emit_str("movl\t$0, %eax");
                                            self.emit_str("setge\t%al");
                                        },
                                        BinaryOp::BitwiseLeft => self.emit_str("sall\t%cl, %eax"),
                                        BinaryOp::BitwiseRight => self.emit_str("sarl\t%cl, %eax"),
                                        BinaryOp::BitwiseAnd => self.emit_str("andl\t%ecx, %eax"),
                                        BinaryOp::BitwiseXor => self.emit_str("xorl\t%ecx, %eax"),
                                        BinaryOp::BitwiseOr => self.emit_str("orl\t%ecx, %eax"),
                                        _ => {},
                                    }
                                    proof {
                                        match spec_gen_expr(
                                            view_expr(*e),
                                            st.view_entries(),
                                            old(self).counter(),
                                        ) {
                                            Ok(p) => {
                                                assert(self.lines() =~= base + p.0);
                                            },
                                            Err(_) => {},
                                        }
                                    }
                                    Ok(())
                                },
                            }
                        },
                    }
                }
            },
            Expression::Ternary(c, t, f) => {
                let id = self.fresh_label();
                match self.gen_expr(c, st) {
                    Err(er) => Err(er),
                    Ok(_) => {
                        self.emit_str("cmpl\t$0, %eax");
                        self.emit_pre_num("je\t.Lelse_", id);
                        match self.gen_expr(t, st) {
                            Err(er) => Err(er),
                            Ok(_) => {
                                self.emit_pre_num("jmp\t.Lend_", id);
                                self.emit_num(".Lelse_", id, ":");
                                match self.gen_expr(f, st) {
                                    Err(er) => Err(er),
                                    Ok(_) => {
                                        self.emit_num(".Lend_", id, ":");
                                        proof {
                                            match spec_gen_expr(
                                                view_expr(*e),
                                                st.view_entries(),
                                                old(self).counter(),
                                            ) {
                                                Ok(p) => {
                                                    assert(self.lines() =~= base + p.0);
                                                },
                                                Err(_) => {},
                                            }
                                        }
                                        Ok(())
                                    },
                                }
                            },
                        }
                    },
                }
            },
            _ => Err(CompileError::UnsupportedConstruct),
        }
    }

    /// Emit the instructions for one statement; declarations extend the
    /// symbol table, and a branch or block body keeps its declarations
    /// to itself. Hands back the next free frame offset.
    #[verifier::rlimit(100)]
    fn gen_statement(&mut self, s: &Statement, st: &mut SymTab, off: u64) -> (r: Result<
        u64,
        CompileError,
    >)
        ensures
            match spec_gen_stmt(
                view_stmt(*s),
                old(st).view_entries(),
                off,
                old(self).counter(),
            ) {
                Ok(p) => r matches Ok(o2) && final(self).lines() == old(self).lines() + p.0
                    && final(st).view_entries() == p.1 && o2 == p.2 && final(self).counter() == p.3
                    && old(st).entries@.is_prefix_of(final(st).entries@),
                Err(er) => r matches Err(e2) && e2.deep_view() == er,
            },
        decreases *s, 0nat,
    {
        let ghost base = self.lines();
        match s {
            Statement::Declare(v, init) => {
                let new_off = sat_add_exec(off, prim_size(v.size));
                match init {
                    None => {
                        st.push(v.name.clone(), new_off, v.size);
                        proof {
                            assert(self.lines() =~= base + Seq::<Seq<char>>::empty());
                        }
                        Ok(new_off)
                    },
                    Some(e) => match self.gen_expr(e, st) {
                        Err(er) => Err(er),
                        Ok(_) => {
                            self.emit_access(new_off, v.size, true);
                            st.push(v.name.clone(), new_off, v.size);
                            proof {
                                match spec_gen_stmt(
                                    view_stmt(*s),
                                    old(st).view_entries(),
                                    off,
                                    old(self).counter(),
                                ) {
                                    Ok(p) => {
                                        assert(self.lines() =~= base + p.0);
                                    },
                                    Err(_) => {},
                                }
                            }
                            Ok(new_off)
                        },
                    },
                }
            },
            Statement::Return(e) => match self.gen_expr(e, st) {
                Err(er) => Err(er),
                Ok(_) => {
                    self.emit_str("movq\t%rbp, %rsp");
                    self.emit_str("popq\t%rbp");
                    self.emit_str("ret");
                    proof {
                        match spec_gen_stmt(
                            view_stmt(*s),
                            old(st).view_entries(),
                            off,
                            old(self).counter(),
                        ) {
                            Ok(p) => {
                                assert(self.lines() =~= base + p.0);
                            },
                            Err(_) => {},
                        }
                    }
                    Ok(off)
                },
            },
            Statement::Exp(e) => match self.gen_expr(e, st) {
                Err(er) => Err(er),
                Ok(_) => Ok(off),
            },
            Statement::If(c, t, els) => {
                let id = self.fresh_label();
                match self.gen_expr(c, st) {
                    Err(er) => Err(er),
                    Ok(_) => {
                        self.emit_str("cmpl\t$0, %eax");
                        match els {
                            None => {
                                self.emit_pre_num("je\t.Lend_", id);
                                let mark = st.entries.len();
                                let o2 = match self.gen_statement(t, st, off) {
                                    Err(er) => {
                                        return Err(er);
                                    },
                                    Ok(o) => o,
                                };
                                st.truncate(mark);
                                self.emit_num(".Lend_", id, ":");
                                proof {
                                    assert(st.entries@ =~= old(st).entries@);
                                    assert(st.view_entries() =~= old(st).view_entries());
                                    match spec_gen_stmt(
                                        view_stmt(*s),
                                        old(st).view_entries(),
                                        off,
                                        old(self).counter(),
                                    ) {
                                        Ok(p) => {
                                            assert(self.lines() =~= base + p.0);
                                        },
                                        Err(_) => {},
                                    }
                                }
                                Ok(o2)
                            },
                            Some(f) => {
                                self.emit_pre_num("je\t.Lelse_", id);
                                let mark = st.entries.len();
                                let o2 = match self.gen_statement(t, st, off) {
                                    Err(er) => {
                                        return Err(er);
                                    },
                                    Ok(o) => o,
                                };
                                st.truncate(mark);
                                proof {
                                    assert(st.entries@ =~= old(st).entries@);
                                    assert(st.view_entries() =~= old(st).view_entries());
                                }
                                self.emit_pre_num("jmp\t.Lend_", id);
                                self.emit_num(".Lelse_", id, ":");
                                let o3 = match self.gen_statement(f, st, o2) {
                                    Err(er) => {
                                        return Err(er);
                                    },
                                    Ok(o) => o,
                                };
                                st.truncate(mark);
                                self.emit_num(".Lend_", id, ":");
                                proof {
                                    assert(st.entries@ =~= old(st).entries@);
                                    assert(st.view_entries() =~= old(st).view_entries());
                                    match spec_gen_stmt(
                                        view_stmt(*s),
                                        old(st).view_entries(),
                                        off,
                                        old(self).counter(),
                                    ) {
                                        Ok(p) => {
                                            assert(self.lines() =~= base + p.0);
                                        },
                                        Err(_) => {},
                                    }
                                }
                                Ok(o3)
                            },
                        }
                    },
                }
            },
            Statement::While(c, b) => {
                let id = self.fresh_label();
                self.emit_num(".Lloop_", id, ":");
                match self.gen_expr(c, st) {
                    Err(er) => Err(er),
                    Ok(_) => {
                        self.emit_str("cmpl\t$0, %eax");
                        self.emit_pre_num("je\t.Lend_", id);
                        let mark = st.entries.len();
                        let o2 = match self.gen_statement(b, st, off) {
                            Err(er) => {
                                return Err(er);
                            },
                            Ok(o) => o,
                        };
                        st.truncate(mark);
                        self.emit_pre_num("jmp\t.Lloop_", id);
                        self.emit_num(".Lend_", id, ":");
                        proof {
                            assert(st.entries@ =~= old(st).entries@);
                            assert(st.view_entries() =~= old(st).view_entries());
                            match spec_gen_stmt(
                                view_stmt(*s),
                                old(st).view_entries(),
                                off,
                                old(self).counter(),
                            ) {
                                Ok(p) => {
                                    assert(self.lines() =~= base + p.0);
                                },
                                Err(_) => {},
                            }
                        }
                        Ok(o2)
                    },
                }
            },
            Statement::Compound(ss) => {
                let mark = st.entries.len();
                let o2 = match self.gen_statements(ss, 0, st, off) {
                    Err(er) => {
                        return Err(er);
                    },
                    Ok(o) => o,
                };
                st.truncate(mark);
                proof {
                    assert(st.entries@ =~= old(st).entries@);
                    assert(st.view_entries() =~= old(st).view_entries());
                }
                Ok(o2)
            },
        }
    }

    /// Emit the instructions for the statements from index `i` on,
    /// threading the symbol table, frame offset and label counter.
    fn gen_statements(&mut self, ss: &Vec<Statement>, i: usize, st: &mut SymTab, off: u64) -> (r:
        Result<u64, CompileError>)
        requires
            i <= ss@.len(),
        ensures
            match spec_gen_stmts_from(
                view_stmt_seq(ss@),
                i as nat,
                old(st).view_entries(),
                off,
                old(self).counter(),
            ) {
                Ok(p) => r matches Ok(o2) && final(self).lines() == old(self).lines() + p.0
                    && final(st).view_entries() == p.1 && o2 == p.2 && final(self).counter() == p.3
                    && old(st).entries@.is_prefix_of(final(st).entries@),
                Err(er) => r matches Err(e2) && e2.deep_view() == er,
            },
        decreases ss@, ss@.len() - i,
    {
        let ghost base = self.lines();
        if i >= ss.len() {
            proof {
                assert(self.lines() =~= base + Seq::<Seq<char>>::empty());
            }
            return Ok(off);
        }
        let o1 = match self.gen_statement(&ss[i], st, off) {
            Err(er) => {
                return Err(er);
            },
            Ok(o) => o,
        };
        let ghost mid_entries = st.entries@;
        match self.gen_statements(ss, i + 1, st, o1) {
            Err(er) => Err(er),
            Ok(o2) => {
                proof {
                    assert(final(st).entries@.subrange(0, old(st).entries@.len() as int) =~= old(
                        st,
                    ).entries@);
                    match spec_gen_stmts_from(
                        view_stmt_seq(ss@),
                        i as nat,
                        old(st).view_entries(),
                        off,
                        old(self).counter(),
                    ) {
                        Ok(p) => {
                            assert(self.lines() =~= base + p.0);
                        },
                        Err(_) => {},
                    }
                }
                Ok(o2)
            },
        }
    }

    /// The 32-bit argument register for parameter `i`.
    fn reg32_str(&self, i: usize) -> (r: &'static str)
        requires
            i < 6,
        ensures
            r@ == reg32(i as nat),
    {
        if i == 0 {
            "%edi"
        } else if i == 1 {
            "%esi"
        } else if i == 2 {
            "%edx"
        } else if i == 3 {
            "%ecx"
        } else if i == 4 {
            "%r8d"
        } else {
            "%r9d"
        }
    }

    /// The 8-bit argument register for parameter `i`.
    fn reg8_str(&self, i: usize) -> (r: &'static str)
        requires
            i < 6,
        ensures
            r@ == reg8(i as nat),
    {
        if i == 0 {
            "%dil"
        } else if i == 1 {
            "%sil"
        } else if i == 2 {
            "%dl"
        } else if i == 3 {
            "%cl"
        } else if i == 4 {
            "%r8b"
        } else {
            "%r9b"
        }
    }

    /// Emit the spills of the parameters from index `i` on into their
    /// frame slots, extending the symbol table.
    fn gen_params(&mut self, args: &Vec<Variable>, i: usize, st: &mut SymTab, off: u64) -> (r:
        Result<u64, CompileError>)
        requires
            i <= args@.len(),
        ensures
            match spec_gen_params(args.deep_view(), i as nat, old(st).view_entries(), off) {
                Ok(p) => r matches Ok(o2) && final(self).lines() == old(self).lines() + p.0
                    && final(st).view_entries() == p.1 && o2 == p.2 && final(self).counter() == old(
                    self,
                ).counter(),
                Err(er) => r matches Err(e2) && e2.deep_view() == er,
            },
        decreases args@.len() - i,
    {
        let ghost base = self.lines();
        if i >= args.len() {
            proof {
                assert(self.lines() =~= base + Seq::<Seq<char>>::empty());
            }
            return Ok(off);
        }
        if i >= 6 {
            return Err(CompileError::UnsupportedConstruct);
        }
        let v = &args[i];
        let new_off = sat_add_exec(off, prim_size(v.size));
        let mut l: String;
        match v.size {
            Primitive::Int => {
                l = String::from_str("movl\t");
                l.append(self.reg32_str(i));
            },
            Primitive::Byte => {
                l = String::from_str("movb\t");
                l.append(self.reg8_str(i));
            },
        }
        l.append(", -");
        let num = u64_to_string(new_off);
        l.append(num.as_str());
        l.append("(%rbp)");
        let ghost line_v = l@;
        self.buf.add(l);
        st.push(v.name.clone(), new_off, v.size);
        match self.gen_params(args, i + 1, st, new_off) {
            Err(er) => Err(er),
            Ok(o2) => {
                proof {
                    match spec_gen_params(
                        args.deep_view(),
                        i as nat,
                        old(st).view_entries(),
                        off,
                    ) {
                        Ok(p) => {
                            assert(self.lines() =~= base + p.0);
                        },
                        Err(_) => {},
                    }
                }
                Ok(o2)
            },
        }
    }

    /// The bytes of stack storage the parameters from index `i` on need.
    fn params_size(&self, args: &Vec<Variable>, i: usize) -> (r: u64)
        requires
            i <= args@.len(),
        ensures
            r == spec_params_size(args.deep_view(), i as nat),
        decreases args@.len() - i,
    {
        if i >= args.len() {
            0
        } else {
            let first = prim_size(args[i].size);
            sat_add_exec(first, self.params_size(args, i + 1))
        }
    }

    /// Emit one function: prologue, stack reservation sized by a
    /// pre-pass over every declaration, parameter spills, the body, and
    /// a synthetic epilogue when no top-level return exists.
    #[verifier::rlimit(100)]
    fn generate_func(&mut self, func: &Function) -> (r: Result<(), CompileError>)
        ensures
            match spec_gen_func(view_func(*func), old(self).counter()) {
                Ok(p) => r matches Ok(u) && final(self).lines() == old(self).lines() + p.0
                    && final(self).counter() == p.1,
                Err(er) => r matches Err(e2) && e2.deep_view() == er,
            },
    {
        let ghost base = self.lines();
        let total = sat_add_exec(
            self.params_size(&func.args, 0),
            stmts_size_from(&func.statements, 0),
        );
        self.emit_pre_name(".globl _", &func.name);
        self.emit_name_post("_", &func.name, ":");
        self.emit_str("pushq\t%rbp");
        self.emit_str("movq\t%rsp, %rbp");
        if total > 0 {
            self.emit_num("subq\t$", total, ", %rsp");
        }
        let mut st = SymTab::new();
        let o1 = match self.gen_params(&func.args, 0, &mut st, 0) {
            Err(er) => {
                return Err(er);
            },
            Ok(o) => o,
        };
        match self.gen_statements(&func.statements, 0, &mut st, o1) {
            Err(er) => {
                return Err(er);
            },
            Ok(_) => {},
        }
        if !has_return_from(&func.statements, 0) {
            self.emit_str("movq\t%rbp, %rsp");
            self.emit_str("popq\t%rbp");
            self.emit_str("ret");
        }
        proof {
            match spec_gen_func(view_func(*func), old(self).counter()) {
                Ok(p) => {
                    assert(self.lines() =~= base + p.0);
                },
                Err(_) => {},
            }
        }
        Ok(())
    }

    /// Emit the functions from index `i` on.
    fn gen_funcs(&mut self, fs: &Vec<Function>, i: usize) -> (r: Result<(), CompileError>)
        requires
            i <= fs@.len(),
        ensures
            match spec_gen_funcs_from(view_func_seq(fs@), i as nat, old(self).counter()) {
                Ok(p) => r matches Ok(u) && final(self).lines() == old(self).lines() + p.0
                    && final(self).counter() == p.1,
                Err(er) => r matches Err(e2) && e2.deep_view() == er,
            },
        decreases fs@.len() - i,
    {
        let ghost base = self.lines();
        if i >= fs.len() {
            proof {
                assert(self.lines() =~= base + Seq::<Seq<char>>::empty());
            }
            return Ok(());
        }
        match self.generate_func(&fs[i]) {
            Err(er) => {
                return Err(er);
            },
            Ok(_) => {},
        }
        match self.gen_funcs(fs, i + 1) {
            Err(er) => Err(er),
            Ok(_) => {
                proof {
                    match spec_gen_funcs_from(view_func_seq(fs@), i as nat, old(self).counter()) {
                        Ok(p) => {
                            assert(self.lines() =~= base + p.0);
                        },
                        Err(_) => {},
                    }
                }
                Ok(())
            },
        }
    }

    /// Turn a program into assembly text, every function translated in
    /// order and all labels pairwise distinct; the first undeclared name
    /// is Unresolved-Symbol, and a recognized shape with no translation
    /// is Unsupported-Construct, never skipped.
    pub fn generate(&mut self, prog: Program) -> (r: Result<String, CompileError>)
        requires
            old(self).counter() == 0,
            old(self).lines() == Seq::<Seq<char>>::empty(),
        ensures
            match spec_gen_program(view_program(prog)) {
                Ok(ls) => r matches Ok(s) && s@ == spec_join(ls, 0),
                Err(er) => r matches Err(e2) && e2.deep_view() == er,
            },
    {
        match self.gen_funcs(&prog.functions, 0) {
            Err(er) => Err(er),
            Ok(_) => {
                proof {
                    match spec_gen_program(view_program(prog)) {
                        Ok(ls) => {
                            assert(self.lines() =~= ls);
                        },
                        Err(_) => {},
                    }
                }
                Ok(self.buf.build())
            },
        }
    }
}

} // verus!
