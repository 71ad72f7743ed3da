//! The parser: a recursive-descent consumer of the token stream. It resolves
//! labels (with forward references, via a pre-pass) and constants, builds the
//! instruction list and the initial data segment, and fails fast with a
//! line-numbered diagnostic of the form `Error:<line>:<reason>` on the first
//! malformed construct.

use crate::lexer::models;
use crate::numbers::{parse_i64, spec_layout_compat};
use crate::tables::ConstTable;
use crate::text::{
    char_is_alphabetic, char_is_alphanumeric, is_alphabetic_char, is_alphanumeric_char, spec_dec,
    str_eq, u32_to_string,
};
use crate::token::{Token, TokenList, TokenModel, TokenType};
use crate::util::{get_valid_register, spec_valid_register};
use crate::virtual_machine_interface::RegisterKind;
use crate::virtualmachine::{VirtualMachine, VmModel};
use crate::vm_defs::{spec_opcode, ArgModel, Argument, InstrModel, InstructionBuilder, LabelType};
use vstd::prelude::*;

verus! {

/// Whether a token stream opens with a valid section annotation: a `.data`
/// or `.text` word followed immediately by an end of line.
pub open spec fn spec_ok_start(toks: Seq<TokenModel>) -> bool {
    toks.len() >= 2 && (toks[0].text == ".data"@ || toks[0].text == ".text"@) && toks[1].kind
        == TokenType::Eol
}

/// The line number a parse error at the front of the stream reports.
pub open spec fn spec_first_line(toks: Seq<TokenModel>) -> u32 {
    if toks.len() > 0 {
        toks[0].line
    } else {
        0u32
    }
}

/// The shape of every parse diagnostic.
pub open spec fn spec_err_msg(line: u32, reason: Seq<char>) -> Seq<char> {
    "Error:"@ + spec_dec(line as nat) + ":"@ + reason
}

/// A virtual machine under construction never runs: registers, counters and
/// the error flag stay at their initial values, and the data segment keeps
/// its size.
pub open spec fn build_inv(a: VmModel, b: VmModel) -> bool {
    &&& b.regs == a.regs
    &&& b.pc == a.pc
    &&& b.hi == a.hi
    &&& b.lo == a.lo
    &&& b.error == a.error
    &&& b.error_msg == a.error_msg
    &&& b.data.len() == a.data.len()
}

#[derive(Debug, Clone, Copy, PartialEq, Eq, Structural)]
pub enum ParseMode {
    Data,
    Text,
    Error,
}

struct Parser {
    vm: VirtualMachine,
    tokens: TokenList,
    pos: usize,
    labels: Vec<String>,
    constants: ConstTable,
    mode: ParseMode,
    instruction: InstructionBuilder,
    sentinel: Token,
}

/// The token the cursor stands on; past the end it is a line-0 `Eol`.
spec fn peek_model(p: &Parser) -> TokenModel {
    if p.pos < p.tokens@.len() {
        p.tokens@[p.pos as int]@
    } else {
        p.sentinel@
    }
}

/// What a parse helper never touches: the token stream, the pre-pass label
/// list, the end marker, and the machine's run-time state.
spec fn frame(a: &Parser, b: &Parser) -> bool {
    &&& b.tokens@ == a.tokens@
    &&& b.labels@ == a.labels@
    &&& b.sentinel == a.sentinel
    &&& build_inv(a.vm@, b.vm@)
}

/// How many tokens are left in front of the cursor.
spec fn remaining(p: &Parser) -> int {
    if p.pos <= p.tokens@.len() {
        p.tokens@.len() - p.pos
    } else {
        0
    }
}

/// The parser's full mathematical state: the machine under construction,
/// the token stream with the cursor, the pre-pass label list, the constants
/// table, the mode, and the instruction being built.
pub ghost struct ParseState {
    pub vm: VmModel,
    pub toks: Seq<TokenModel>,
    pub pos: int,
    pub labels: Seq<Seq<char>>,
    pub consts: Map<Seq<char>, Seq<char>>,
    pub mode: ParseMode,
    pub inst: InstrModel,
}

/// The end marker the cursor yields past the stream.
pub open spec fn eol_marker() -> TokenModel {
    TokenModel { kind: TokenType::Eol, line: 0u32, text: Seq::<char>::empty() }
}

pub open spec fn s_tok_at(p: ParseState, i: int) -> TokenModel {
    if 0 <= i < p.toks.len() {
        p.toks[i]
    } else {
        eol_marker()
    }
}

pub open spec fn s_peek(p: ParseState) -> TokenModel {
    s_tok_at(p, p.pos)
}

pub open spec fn s_line(p: ParseState) -> u32 {
    if 0 <= p.pos < p.toks.len() {
        p.toks[p.pos].line
    } else {
        0u32
    }
}

pub open spec fn s_adv(p: ParseState) -> ParseState {
    if p.pos < p.toks.len() {
        ParseState { pos: p.pos + 1, ..p }
    } else {
        p
    }
}

pub open spec fn s_add_arg(p: ParseState, a: ArgModel) -> ParseState {
    ParseState { inst: InstrModel { args: p.inst.args.push(a), ..p.inst }, ..p }
}

pub open spec fn s_set_opcode(p: ParseState, text: Seq<char>) -> ParseState {
    ParseState { inst: InstrModel { opcode: spec_opcode(text), ..p.inst }, ..p }
}

/// Freezes the built instruction into the machine and clears the builder.
pub open spec fn s_emit(p: ParseState) -> ParseState {
    ParseState {
        vm: VmModel { insts: p.vm.insts.push(p.inst), ..p.vm },
        inst: InstructionBuilder::blank(),
        ..p
    }
}

pub open spec fn seq_has(acc: Seq<Seq<char>>, t: Seq<char>) -> bool {
    exists|j: int| 0 <= j < acc.len() && acc[j] == t
}

pub open spec fn spec_all_alnum(s: Seq<char>) -> bool {
    forall|i: int| 0 <= i < s.len() ==> char_is_alphanumeric(#[trigger] s[i])
}

/// Whether the label pre-pass registers a token: not yet collected (by its
/// full text), and shaped `name:` with an alphanumeric name.
pub open spec fn prepass_hit(acc: Seq<Seq<char>>, t: Seq<char>) -> bool {
    &&& !seq_has(acc, t)
    &&& t.len() > 0
    &&& 'A' <= t[0] && t[0] <= 'z'
    &&& t[t.len() - 1] == ':'
    &&& spec_all_alnum(t.subrange(0, t.len() - 1))
}

/// The label names the pre-pass collects from the first `n` tokens.
pub open spec fn spec_prepass(toks: Seq<TokenModel>, n: int) -> Seq<Seq<char>>
    decreases n,
{
    if n <= 0 {
        Seq::empty()
    } else {
        let acc = spec_prepass(toks, n - 1);
        let t = toks[n - 1].text;
        if prepass_hit(acc, t) {
            acc.push(t.subrange(0, t.len() - 1))
        } else {
            acc
        }
    }
}

/// The machine a fresh parser starts from.
pub open spec fn init_vm_model() -> VmModel {
    VmModel {
        error: false,
        error_msg: Seq::<char>::empty(),
        regs: Seq::new(32, |i: int| 0u32),
        pc: 0u32,
        hi: 0u32,
        lo: 0u32,
        back: 0u32,
        data: Seq::new(crate::DATA_SEGMENT_SIZE as nat, |i: int| 0u8),
        insts: Seq::<InstrModel>::empty(),
        labels: Map::<Seq<char>, u32>::empty(),
    }
}

pub open spec fn s_parse_register(p: ParseState) -> (ParseState, bool) {
    match spec_valid_register(s_peek(p).text) {
        Some(reg) => if reg == RegisterKind::RegHi || reg == RegisterKind::RegLo || reg
            == RegisterKind::RegPC {
            (p, false)
        } else {
            (s_add_arg(p, ArgModel::Register(reg)), true)
        },
        None => (p, false),
    }
}

/// The value string an immediate denotes, after constant substitution.
pub open spec fn s_imm_source(p: ParseState) -> Seq<char> {
    if p.consts.contains_key(s_peek(p).text) {
        p.consts[s_peek(p).text]
    } else {
        s_peek(p).text
    }
}

pub open spec fn s_parse_immediate(p: ParseState) -> (ParseState, bool) {
    let src = s_imm_source(p);
    if spec_layout_compat(".word"@, src) {
        (
            s_add_arg(
                p,
                ArgModel::Immediate(
                    crate::virtualmachine::lo32(crate::numbers::spec_parse_i64(src).unwrap() as int),
                ),
            ),
            true,
        )
    } else {
        (p, false)
    }
}

pub open spec fn s_parse_offset(p: ParseState) -> (ParseState, bool) {
    let t = s_peek(p).text;
    if spec_layout_compat(".word"@, t) && crate::numbers::spec_parse_u32(t) is Some {
        (s_add_arg(p, ArgModel::Offset(crate::numbers::spec_parse_u32(t).unwrap())), true)
    } else {
        (p, false)
    }
}

pub open spec fn s_parse_label_reference(p: ParseState) -> (ParseState, bool) {
    if seq_has(p.labels, s_peek(p).text) {
        (s_add_arg(p, ArgModel::Label(s_peek(p).text)), true)
    } else {
        (p, false)
    }
}

pub open spec fn s_parse_reg_sep(p: ParseState) -> (ParseState, bool) {
    let (p1, r) = s_parse_register(p);
    if !r {
        (p1, false)
    } else {
        let p2 = s_adv(p1);
        (p2, s_peek(p2).kind == TokenType::Sep)
    }
}

pub open spec fn s_memref_close(p: ParseState) -> (ParseState, bool) {
    let q = s_adv(p);
    (q, s_peek(q).kind == TokenType::CloseParen)
}

/// A parenthesized base after an optional offset.
pub open spec fn s_parse_memref_base(p: ParseState) -> (ParseState, bool) {
    let (q0, ro) = s_parse_offset(p);
    let q1 = if ro {
        s_adv(q0)
    } else {
        q0
    };
    if s_peek(q1).kind != TokenType::OpenParen {
        (q1, false)
    } else {
        let q2 = s_adv(q1);
        let (q3, ra) = s_parse_register(q2);
        if ra {
            s_memref_close(q3)
        } else {
            let (q4, rb) = s_parse_immediate(q3);
            if rb {
                s_memref_close(q4)
            } else {
                let (q5, rc) = s_parse_label_reference(q4);
                if rc {
                    s_memref_close(q5)
                } else {
                    (q5, false)
                }
            }
        }
    }
}

pub open spec fn s_parse_memref(p: ParseState) -> (ParseState, bool) {
    let (p1, r1) = s_parse_label_reference(p);
    if r1 {
        (p1, true)
    } else {
        let (p2, r2) = s_parse_register(p1);
        if r2 {
            (p2, true)
        } else {
            let next_is_paren = s_tok_at(p2, p2.pos + 1).kind == TokenType::OpenParen;
            if !next_is_paren {
                let (p3, r3) = s_parse_immediate(p2);
                if r3 {
                    (p3, true)
                } else {
                    s_parse_memref_base(p3)
                }
            } else {
                s_parse_memref_base(p2)
            }
        }
    }
}

pub open spec fn s_parse_control(p: ParseState) -> (ParseState, bool) {
    let mn = s_peek(p).text;
    let p0 = s_set_opcode(p, mn);
    let is_branch = mn == "beq"@ || mn == "bne"@ || mn == "blt"@ || mn == "ble"@ || mn == "bgt"@
        || mn == "bge"@;
    if is_branch {
        let p1 = s_adv(p0);
        let (p2, r2) = s_parse_reg_sep(p1);
        if !r2 {
            (p2, false)
        } else {
            let p3 = s_adv(p2);
            let (q, got) = s_branch_second_operand(p3);
            if !got {
                (q, false)
            } else if s_peek(q).kind != TokenType::Sep {
                (q, false)
            } else {
                s_parse_label_reference(s_adv(q))
            }
        }
    } else if mn == "j"@ {
        s_parse_label_reference(s_adv(p0))
    } else {
        (p0, false)
    }
}

/// A branch's second compared operand: a register or an immediate, the
/// cursor moving past it on success.
pub open spec fn s_branch_second_operand(p: ParseState) -> (ParseState, bool) {
    let (p1, r1) = s_parse_register(p);
    if r1 {
        (s_adv(p1), true)
    } else {
        let (p2, r2) = s_parse_immediate(p1);
        if r2 {
            (s_adv(p2), true)
        } else {
            (p2, false)
        }
    }
}

pub open spec fn s_reg_or_imm(p: ParseState) -> (ParseState, bool) {
    let (p1, r1) = s_parse_register(p);
    if r1 {
        (p1, true)
    } else {
        s_parse_immediate(p1)
    }
}

pub open spec fn s_parse_logical(p: ParseState) -> (ParseState, bool) {
    let mn = s_peek(p).text;
    let p0 = s_set_opcode(p, mn);
    let is_binary = mn == "and"@ || mn == "nor"@ || mn == "or"@ || mn == "xor"@;
    if is_binary {
        let p1 = s_adv(p0);
        let (p2, r2) = s_parse_reg_sep(p1);
        if !r2 {
            (p2, false)
        } else {
            let p3 = s_adv(p2);
            let (p4, r4) = s_parse_reg_sep(p3);
            if !r4 {
                (p4, false)
            } else {
                s_reg_or_imm(s_adv(p4))
            }
        }
    } else if mn == "not"@ {
        let p1 = s_adv(p0);
        let (p2, r2) = s_parse_reg_sep(p1);
        if !r2 {
            (p2, false)
        } else {
            s_reg_or_imm(s_adv(p2))
        }
    } else {
        (p0, false)
    }
}

pub open spec fn s_parse_int_arithmetic(p: ParseState) -> (ParseState, bool) {
    let mn = s_peek(p).text;
    let p0 = s_set_opcode(p, mn);
    let is_three_op = mn == "add"@ || mn == "addu"@ || mn == "sub"@ || mn == "subu"@ || mn
        == "mul"@ || mn == "mulo"@ || mn == "mulou"@ || mn == "rem"@ || mn == "remu"@;
    let is_two_op = mn == "mult"@ || mn == "multu"@ || mn == "abs"@ || mn == "neg"@ || mn
        == "negu"@;
    let is_div = mn == "div"@ || mn == "divu"@;
    if is_three_op {
        let p1 = s_adv(p0);
        let (p2, r2) = s_parse_reg_sep(p1);
        if !r2 {
            (p2, false)
        } else {
            let p3 = s_adv(p2);
            let (p4, r4) = s_parse_reg_sep(p3);
            if !r4 {
                (p4, false)
            } else {
                s_reg_or_imm(s_adv(p4))
            }
        }
    } else if is_two_op {
        let p1 = s_adv(p0);
        let (p2, r2) = s_parse_reg_sep(p1);
        if !r2 {
            (p2, false)
        } else {
            s_parse_register(s_adv(p2))
        }
    } else if is_div {
        let p1 = s_adv(p0);
        let (p2, r2) = s_parse_reg_sep(p1);
        if !r2 {
            (p2, false)
        } else {
            let p3 = s_adv(p2);
            let (p4, r4) = s_parse_register(p3);
            if !r4 {
                (p4, false)
            } else {
                let next_sep = s_tok_at(p4, p4.pos + 1).kind == TokenType::Sep;
                if next_sep {
                    s_reg_or_imm(s_adv(s_adv(p4)))
                } else {
                    (p4, true)
                }
            }
        }
    } else {
        (p0, false)
    }
}

pub open spec fn s_parse_data_movement(p: ParseState) -> (ParseState, bool) {
    let mn = s_peek(p).text;
    let p0 = s_set_opcode(p, mn);
    let is_hilo = mn == "mfhi"@ || mn == "mflo"@ || mn == "mthi"@ || mn == "mtlo"@;
    let is_mem = mn == "lw"@ || mn == "lh"@ || mn == "lb"@ || mn == "la"@ || mn == "sw"@ || mn
        == "sh"@ || mn == "sb"@;
    if is_hilo {
        s_parse_register(s_adv(p0))
    } else if is_mem {
        let p1 = s_adv(p0);
        let (p2, r2) = s_parse_reg_sep(p1);
        if !r2 {
            (p2, false)
        } else {
            s_parse_memref(s_adv(p2))
        }
    } else if mn == "move"@ {
        let p1 = s_adv(p0);
        let (p2, r2) = s_parse_reg_sep(p1);
        if !r2 {
            (p2, false)
        } else {
            s_parse_register(s_adv(p2))
        }
    } else if mn == "li"@ {
        let p1 = s_adv(p0);
        let (p2, r2) = s_parse_reg_sep(p1);
        if !r2 {
            (p2, false)
        } else {
            s_parse_immediate(s_adv(p2))
        }
    } else {
        (p0, false)
    }
}

pub open spec fn s_parse_operation(p: ParseState) -> (ParseState, bool) {
    let pl = ParseState { inst: InstrModel { line: s_line(p), ..p.inst }, ..p };
    let (q1, r1) = s_parse_data_movement(pl);
    if r1 {
        (s_emit(q1), true)
    } else {
        let (q2, r2) = s_parse_int_arithmetic(q1);
        if r2 {
            (s_emit(q2), true)
        } else {
            let (q3, r3) = s_parse_logical(q2);
            if r3 {
                (s_emit(q3), true)
            } else {
                let (q4, r4) = s_parse_control(q3);
                if r4 {
                    (s_emit(q4), true)
                } else {
                    if s_peek(q4).text == "nop"@ {
                        (s_emit(s_set_opcode(q4, "nop"@)), true)
                    } else {
                        (q4, false)
                    }
                }
            }
        }
    }
}

pub open spec fn s_parse_label_declaration(p: ParseState) -> (ParseState, bool) {
    let t = s_peek(p).text;
    if t.len() == 0 {
        (p, false)
    } else {
        let trunc = t.subrange(0, t.len() - 1);
        if !seq_has(p.labels, trunc) {
            (p, false)
        } else {
            match p.mode {
                ParseMode::Data => (
                    ParseState {
                        vm: VmModel { labels: p.vm.labels.insert(trunc, p.vm.back), ..p.vm },
                        ..p
                    },
                    true,
                ),
                ParseMode::Text => (
                    ParseState {
                        vm: VmModel {
                            labels: p.vm.labels.insert(trunc, p.vm.insts.len() as u32),
                            ..p.vm
                        },
                        ..p
                    },
                    true,
                ),
                ParseMode::Error => (p, false),
            }
        }
    }
}

pub open spec fn s_parse_string(p: ParseState) -> (ParseState, bool) {
    if s_peek(p).kind != TokenType::StringDelim {
        (p, false)
    } else {
        let p1 = s_adv(p);
        if s_peek(p1).kind != TokenType::String {
            (p1, false)
        } else if !vstd::utf8::is_ascii_chars(s_peek(p1).text) {
            (p1, false)
        } else if p1.pos >= p1.toks.len() {
            (p1, false)
        } else {
            (s_adv(p1), true)
        }
    }
}

pub open spec fn s_parse_constant(p: ParseState) -> (ParseState, bool) {
    let name = s_peek(p).text;
    if name.len() == 0 {
        (p, false)
    } else if !char_is_alphabetic(name[0]) {
        (p, false)
    } else if !spec_all_alnum(name) {
        (p, false)
    } else {
        let p1 = s_adv(p);
        if s_peek(p1).kind != TokenType::Equal {
            (p1, false)
        } else {
            let p2 = s_adv(p1);
            let rhs = s_peek(p2).text;
            if p2.consts.contains_key(rhs) {
                (p2, true)
            } else {
                match crate::numbers::spec_parse_i64(rhs) {
                    Some(v) => (
                        ParseState {
                            consts: p2.consts.insert(name, crate::text::spec_dec_i64(v as int)),
                            ..p2
                        },
                        true,
                    ),
                    None => (p2, false),
                }
            }
        }
    }
}

/// Lays one value out through the machine; a directive the data segment
/// cannot hold fails.
pub open spec fn s_lay(p: ParseState, layout: Seq<char>, value: Seq<char>) -> (ParseState, bool) {
    match crate::virtualmachine::spec_add_data(p.vm, layout, value) {
        Some(vm2) => (ParseState { vm: vm2, ..p }, true),
        None => (p, false),
    }
}

/// The comma-separated remainder of an integer layout list.
pub open spec fn s_layout_items(p: ParseState, layout: Seq<char>) -> (ParseState, bool)
    decreases p.toks.len() - p.pos,
{
    if p.pos >= p.toks.len() || s_peek(p).kind == TokenType::Eol {
        (p, true)
    } else if s_peek(p).kind != TokenType::Sep {
        (p, false)
    } else {
        let p1 = s_adv(p);
        let nxt = s_peek(p1).text;
        if !spec_layout_compat(layout, nxt) {
            (p1, false)
        } else {
            let (p2, ok) = s_lay(p1, layout, nxt);
            if !ok {
                (p2, false)
            } else {
                s_layout_items(s_adv(p2), layout)
            }
        }
    }
}

pub open spec fn s_parse_layout(p: ParseState) -> (ParseState, bool) {
    let lay = s_peek(p).text;
    let is_int = lay == ".word"@ || lay == ".byte"@ || lay == ".half"@ || lay == ".space"@;
    let is_str = lay == ".ascii"@ || lay == ".asciiz"@;
    if is_int {
        let p1 = s_adv(p);
        let first = s_peek(p1).text;
        if !spec_layout_compat(lay, first) {
            if p1.consts.contains_key(first) {
                let cval = p1.consts[first];
                if !spec_layout_compat(lay, cval) {
                    (p1, false)
                } else {
                    let (p2, ok) = s_lay(p1, lay, cval);
                    if !ok {
                        (p2, false)
                    } else {
                        s_layout_tail(s_adv(p2), lay)
                    }
                }
            } else {
                (p1, false)
            }
        } else {
            let (p2, ok) = s_lay(p1, lay, first);
            if !ok {
                (p2, false)
            } else {
                s_layout_tail(s_adv(p2), lay)
            }
        }
    } else if is_str {
        let p1 = s_adv(p);
        let (p2, rs) = s_parse_string(p1);
        if !rs {
            (p2, false)
        } else {
            let text = s_tok_at(p2, p2.pos - 1).text;
            let (p3, ok) = s_lay(p2, lay, text);
            if !ok {
                (p3, false)
            } else {
                let p4 = s_adv(p3);
                (p4, s_peek(p4).kind == TokenType::Eol)
            }
        }
    } else {
        (p, false)
    }
}

/// After the first laid-out value: a lone end of line for `.space`, a
/// comma-separated list otherwise.
pub open spec fn s_layout_tail(p: ParseState, lay: Seq<char>) -> (ParseState, bool) {
    if lay == ".space"@ {
        (p, s_peek(p).kind == TokenType::Eol)
    } else {
        s_layout_items(p, lay)
    }
}

pub open spec fn s_parse_declaration(p: ParseState) -> (ParseState, bool) {
    let (p1, r1) = s_parse_constant(p);
    if r1 {
        let p2 = s_adv(p1);
        (p2, s_peek(p2).kind == TokenType::Eol)
    } else {
        let (q1, r2) = s_parse_label_declaration(p1);
        if r2 {
            let q2 = s_adv(q1);
            if s_peek(q2).kind == TokenType::Eol {
                (q2, true)
            } else {
                let (q3, r3) = s_parse_layout(q2);
                if r3 {
                    (q3, s_peek(q3).kind == TokenType::Eol)
                } else {
                    (q3, false)
                }
            }
        } else {
            let (q4, r4) = s_parse_layout(q1);
            if r4 {
                (q4, s_peek(q4).kind == TokenType::Eol)
            } else {
                (q4, false)
            }
        }
    }
}

pub open spec fn s_parse_instruction(p: ParseState) -> (ParseState, bool) {
    let (p1, r1) = s_parse_label_declaration(p);
    if r1 {
        let p2 = s_adv(p1);
        let (p3, r3) = s_parse_operation(p2);
        if r3 {
            let p4 = s_adv(p3);
            (p4, s_peek(p4).kind == TokenType::Eol)
        } else {
            (p3, s_peek(p3).kind == TokenType::Eol)
        }
    } else {
        let (q1, r2) = s_parse_operation(p1);
        if r2 {
            let q2 = s_adv(q1);
            (q2, s_peek(q2).kind == TokenType::Eol)
        } else {
            (q1, false)
        }
    }
}

/// Consumes every annotation pair at the cursor, switching the mode, and
/// reports whether at least two tokens remain.
pub open spec fn s_skip(p: ParseState) -> (ParseState, bool)
    decreases p.toks.len() - p.pos,
{
    if p.pos >= p.toks.len() {
        (p, false)
    } else if p.pos + 1 >= p.toks.len() {
        (p, false)
    } else {
        let t = s_peek(p).text;
        let nk = s_tok_at(p, p.pos + 1).kind;
        if t == ".text"@ && nk == TokenType::Eol {
            s_skip(s_adv(s_adv(ParseState { mode: ParseMode::Text, ..p })))
        } else if t == ".data"@ && nk == TokenType::Eol {
            s_skip(s_adv(s_adv(ParseState { mode: ParseMode::Data, ..p })))
        } else {
            (p, true)
        }
    }
}

/// The main parse loop: one source line per step, until fewer than two
/// tokens remain, failing fast with the offending token's line number.
pub open spec fn s_parse_lines(p: ParseState) -> Result<VmModel, Seq<char>>
    decreases p.toks.len() - p.pos
        via s_parse_lines_decreases
{
    let (p1, more) = s_skip(p);
    if !more {
        Ok(p1.vm)
    } else if s_peek(p1).text == ".data"@ || s_peek(p1).text == ".text"@ {
        Err(spec_err_msg(s_line(p1), "section annotation"@))
    } else {
        match p1.mode {
            ParseMode::Data => {
                let (p2, ok) = s_parse_declaration(p1);
                if !ok {
                    Err(spec_err_msg(s_line(p2), "invalid declaration"@))
                } else {
                    s_parse_lines(s_adv(p2))
                }
            },
            ParseMode::Text => {
                let (p2, ok) = s_parse_instruction(p1);
                if !ok {
                    Err(spec_err_msg(s_line(p2), "invalid instruction"@))
                } else {
                    s_parse_lines(s_adv(p2))
                }
            },
            ParseMode::Error => Err(spec_err_msg(s_line(p1), "unexpected EOF"@)),
        }
    }
}

/// What `parse_vm` returns, as a function of the token models: the label
/// pre-pass, the opening section annotation, then the line-by-line parse.
pub open spec fn spec_parse_vm(toks: Seq<TokenModel>) -> Result<VmModel, Seq<char>> {
    let p0 = ParseState {
        vm: init_vm_model(),
        toks,
        pos: 0,
        labels: spec_prepass(toks, toks.len() as int),
        consts: Map::<Seq<char>, Seq<char>>::empty(),
        mode: ParseMode::Error,
        inst: InstructionBuilder::blank(),
    };
    let (p1, _) = s_skip(p0);
    if p1.mode == ParseMode::Error {
        Err(spec_err_msg(s_line(p1), "section annotation"@))
    } else {
        s_parse_lines(p1)
    }
}

proof fn lemma_adv_frame(p: ParseState)
    ensures
        s_adv(p).toks == p.toks,
        s_adv(p).pos >= p.pos,
        p.pos <= p.toks.len() ==> s_adv(p).pos <= p.toks.len(),
{
}

proof fn lemma_reg_sep_frame(p: ParseState)
    ensures
        s_parse_reg_sep(p).0.toks == p.toks,
        s_parse_reg_sep(p).0.pos >= p.pos,
        p.pos <= p.toks.len() ==> s_parse_reg_sep(p).0.pos <= p.toks.len(),
{
}

proof fn lemma_memref_frame(p: ParseState)
    ensures
        s_parse_memref(p).0.toks == p.toks,
        s_parse_memref(p).0.pos >= p.pos,
        p.pos <= p.toks.len() ==> s_parse_memref(p).0.pos <= p.toks.len(),
{
    lemma_reg_sep_frame(p);
}

proof fn lemma_operation_frame(p: ParseState)
    ensures
        s_parse_operation(p).0.toks == p.toks,
        s_parse_operation(p).0.pos >= p.pos,
        p.pos <= p.toks.len() ==> s_parse_operation(p).0.pos <= p.toks.len(),
{
    let pl = ParseState { inst: InstrModel { line: s_line(p), ..p.inst }, ..p };
    lemma_family_frame(pl);
    let (q1, r1) = s_parse_data_movement(pl);
    lemma_family_frame(q1);
    let (q2, r2) = s_parse_int_arithmetic(q1);
    lemma_family_frame(q2);
    let (q3, r3) = s_parse_logical(q2);
    lemma_family_frame(q3);
}

proof fn lemma_family_frame(p: ParseState)
    ensures
        s_parse_data_movement(p).0.toks == p.toks && s_parse_data_movement(p).0.pos >= p.pos && (
        p.pos <= p.toks.len() ==> s_parse_data_movement(p).0.pos <= p.toks.len()),
        s_parse_int_arithmetic(p).0.toks == p.toks && s_parse_int_arithmetic(p).0.pos >= p.pos && (
        p.pos <= p.toks.len() ==> s_parse_int_arithmetic(p).0.pos <= p.toks.len()),
        s_parse_logical(p).0.toks == p.toks && s_parse_logical(p).0.pos >= p.pos && (p.pos
            <= p.toks.len() ==> s_parse_logical(p).0.pos <= p.toks.len()),
        s_parse_control(p).0.toks == p.toks && s_parse_control(p).0.pos >= p.pos && (p.pos
            <= p.toks.len() ==> s_parse_control(p).0.pos <= p.toks.len()),
{
    let p0 = s_set_opcode(p, s_peek(p).text);
    lemma_memref_frame(s_adv(s_parse_reg_sep(s_adv(p0)).0));
    lemma_reg_sep_frame(s_adv(p0));
    lemma_reg_sep_frame(s_adv(s_parse_reg_sep(s_adv(p0)).0));
}

proof fn lemma_layout_items_frame(p: ParseState, lay: Seq<char>)
    ensures
        s_layout_items(p, lay).0.toks == p.toks,
        s_layout_items(p, lay).0.pos >= p.pos,
        p.pos <= p.toks.len() ==> s_layout_items(p, lay).0.pos <= p.toks.len(),
    decreases p.toks.len() - p.pos,
{
    if p.pos >= p.toks.len() || s_peek(p).kind == TokenType::Eol {
    } else if s_peek(p).kind != TokenType::Sep {
    } else {
        let p1 = s_adv(p);
        let nxt = s_peek(p1).text;
        if spec_layout_compat(lay, nxt) {
            let (p2, ok) = s_lay(p1, lay, nxt);
            if ok {
                lemma_layout_items_frame(s_adv(p2), lay);
            }
        }
    }
}

proof fn lemma_layout_frame(p: ParseState)
    ensures
        s_parse_layout(p).0.toks == p.toks,
        s_parse_layout(p).0.pos >= p.pos,
        p.pos <= p.toks.len() ==> s_parse_layout(p).0.pos <= p.toks.len(),
{
    let lay = s_peek(p).text;
    let p1 = s_adv(p);
    let first = s_peek(p1).text;
    if !spec_layout_compat(lay, first) && p1.consts.contains_key(first) {
        let cval = p1.consts[first];
        if spec_layout_compat(lay, cval) {
            lemma_layout_items_frame(s_adv(s_lay(p1, lay, cval).0), lay);
        }
    } else {
        lemma_layout_items_frame(s_adv(s_lay(p1, lay, first).0), lay);
    }
}

proof fn lemma_declaration_frame(p: ParseState)
    ensures
        s_parse_declaration(p).0.toks == p.toks,
        s_parse_declaration(p).0.pos >= p.pos,
        p.pos <= p.toks.len() ==> s_parse_declaration(p).0.pos <= p.toks.len(),
{
    let (p1, r1) = s_parse_constant(p);
    if !r1 {
        let (q1, r2) = s_parse_label_declaration(p1);
        if r2 {
            lemma_layout_frame(s_adv(q1));
        } else {
            lemma_layout_frame(q1);
        }
    }
}

proof fn lemma_instruction_frame(p: ParseState)
    ensures
        s_parse_instruction(p).0.toks == p.toks,
        s_parse_instruction(p).0.pos >= p.pos,
        p.pos <= p.toks.len() ==> s_parse_instruction(p).0.pos <= p.toks.len(),
{
    let (p1, r1) = s_parse_label_declaration(p);
    if r1 {
        lemma_operation_frame(s_adv(p1));
    } else {
        lemma_operation_frame(p1);
    }
}

proof fn lemma_skip_frame(p: ParseState)
    ensures
        s_skip(p).0.toks == p.toks,
        s_skip(p).0.pos >= p.pos,
        p.pos <= p.toks.len() ==> s_skip(p).0.pos <= p.toks.len(),
        s_skip(p).1 ==> s_skip(p).0.pos + 1 < p.toks.len(),
    decreases p.toks.len() - p.pos,
{
    if p.pos >= p.toks.len() || p.pos + 1 >= p.toks.len() {
    } else {
        let t = s_peek(p).text;
        let nk = s_tok_at(p, p.pos + 1).kind;
        if t == ".text"@ && nk == TokenType::Eol {
            lemma_skip_frame(s_adv(s_adv(ParseState { mode: ParseMode::Text, ..p })));
        } else if t == ".data"@ && nk == TokenType::Eol {
            lemma_skip_frame(s_adv(s_adv(ParseState { mode: ParseMode::Data, ..p })));
        }
    }
}

#[via_fn]
proof fn s_parse_lines_decreases(p: ParseState) {
    lemma_skip_frame(p);
    let (p1, more) = s_skip(p);
    if more {
        lemma_declaration_frame(p1);
        lemma_instruction_frame(p1);
    }
}

/// The views of the pre-pass label names.
pub open spec fn label_views(s: Seq<String>) -> Seq<Seq<char>> {
    s.map_values(|x: String| x@)
}

/// The parser's mathematical state.
spec fn pm(p: &Parser) -> ParseState {
    ParseState {
        vm: p.vm@,
        toks: models(p.tokens@),
        pos: p.pos as int,
        labels: label_views(p.labels@),
        consts: p.constants@,
        mode: p.mode,
        inst: p.instruction@,
    }
}

/// The end marker field holds the line-0 `Eol` the model expects.
spec fn swf(p: &Parser) -> bool {
    p.sentinel@ == eol_marker()
}

/// Membership under the view map coincides with membership by view.
proof fn lemma_seq_has_views(ls: Seq<String>, t: Seq<char>)
    ensures
        seq_has(label_views(ls), t) == (exists|j: int|
            0 <= j < ls.len() && (#[trigger] ls[j])@ == t),
{
    assert(label_views(ls).len() == ls.len());
    assert forall|j: int| 0 <= j < ls.len() implies #[trigger] label_views(ls)[j] == ls[j]@ by {}
    if seq_has(label_views(ls), t) {
        let j = choose|j: int| 0 <= j < label_views(ls).len() && label_views(ls)[j] == t;
        assert(ls[j]@ == t);
    }
    if exists|j: int| 0 <= j < ls.len() && (#[trigger] ls[j])@ == t {
        let j = choose|j: int| 0 <= j < ls.len() && (#[trigger] ls[j])@ == t;
        assert(label_views(ls)[j] == t);
    }
}

/// The model's label list holds exactly the views of the pre-pass names.
proof fn lemma_seq_has_bridge(p: &Parser, t: Seq<char>)
    ensures
        seq_has(pm(p).labels, t) == (exists|j: int|
            0 <= j < p.labels@.len() && (#[trigger] p.labels@[j])@ == t),
{
    assert(pm(p).labels.len() == p.labels@.len());
    assert forall|j: int| 0 <= j < p.labels@.len() implies #[trigger] pm(p).labels[j]
        == p.labels@[j]@ by {}
    if seq_has(pm(p).labels, t) {
        let j = choose|j: int| 0 <= j < pm(p).labels.len() && pm(p).labels[j] == t;
        assert(p.labels@[j]@ == t);
    }
    if exists|j: int| 0 <= j < p.labels@.len() && (#[trigger] p.labels@[j])@ == t {
        let j = choose|j: int| 0 <= j < p.labels@.len() && (#[trigger] p.labels@[j])@ == t;
        assert(pm(p).labels[j] == t);
    }
}

/// Bridges the cursor's exec views to the model's.
proof fn lemma_pm_basics(p: &Parser)
    requires
        swf(p),
    ensures
        s_peek(pm(p)) == peek_model(p),
        s_line(pm(p)) == if p.pos < p.tokens@.len() {
            p.tokens@[p.pos as int]@.line
        } else {
            0u32
        },
        forall|i: int|
            0 <= i ==> #[trigger] s_tok_at(pm(p), i) == if i < p.tokens@.len() {
                p.tokens@[i]@
            } else {
                p.sentinel@
            },
        forall|j: int|
            0 <= j < p.labels@.len() ==> #[trigger] pm(p).labels[j] == p.labels@[j]@,
        pm(p).labels.len() == p.labels@.len(),
{
    assert forall|i: int| 0 <= i implies #[trigger] s_tok_at(pm(p), i) == if i
        < p.tokens@.len() {
        p.tokens@[i]@
    } else {
        p.sentinel@
    } by {
        if i < p.tokens@.len() {
            assert(models(p.tokens@)[i] == p.tokens@[i]@);
        }
    }
}

impl Parser {
    /// Builds the parser over a token stream and runs the label pre-pass:
    /// every token shaped like `name:` with an alphanumeric name registers
    /// `name` as a known label, so forward references resolve.
    fn new(t: TokenList) -> (p: Parser)
        ensures
            p.tokens@ == t@,
            p.pos == 0,
            p.mode == ParseMode::Error,
            label_views(p.labels@) == spec_prepass(models(t@), models(t@).len() as int),
            p.constants@ == Map::<Seq<char>, Seq<char>>::empty(),
            p.instruction@ == InstructionBuilder::blank(),
            p.sentinel@ == (TokenModel {
                kind: TokenType::Eol,
                line: 0u32,
                text: Seq::<char>::empty(),
            }),
            p.vm@ == (VmModel {
                error: false,
                error_msg: Seq::<char>::empty(),
                regs: Seq::new(32, |i: int| 0u32),
                pc: 0u32,
                hi: 0u32,
                lo: 0u32,
                back: 0u32,
                data: Seq::new(crate::DATA_SEGMENT_SIZE as nat, |i: int| 0u8),
                insts: Seq::<crate::vm_defs::InstrModel>::empty(),
                labels: Map::<Seq<char>, u32>::empty(),
            }),
    {
        let mut p = Parser {
            vm: VirtualMachine::new(),
            tokens: t,
            pos: 0,
            labels: Vec::new(),
            constants: ConstTable::new(),
            mode: ParseMode::Error,
            instruction: InstructionBuilder::new(),
            sentinel: Token::new_empty_token(TokenType::Eol, 0),
        };
        let ghost vm0 = p.vm@;
        let ghost toks0 = p.tokens@;
        let ghost sent0 = p.sentinel@;
        let n = p.tokens.len();
        let mut i: usize = 0;
        proof {
            assert(label_views(p.labels@) =~= spec_prepass(models(toks0), 0));
        }
        while i < n
            invariant
                n == p.tokens@.len(),
                i <= n,
                p.vm@ == vm0,
                p.tokens@ == toks0,
                p.pos == 0,
                p.mode == ParseMode::Error,
                p.constants@ == Map::<Seq<char>, Seq<char>>::empty(),
                p.instruction@ == InstructionBuilder::blank(),
                p.sentinel@ == sent0,
                label_views(p.labels@) == spec_prepass(models(toks0), i as int),
            decreases n - i,
        {
            let ghost text = models(toks0)[i as int].text;
            let ghost acc = label_views(p.labels@);
            let value = p.tokens[i].get_value();
            proof {
                assert(models(toks0)[i as int] == p.tokens@[i as int]@);
                assert(value@ == text);
            }
            let len = value.unicode_len();
            let mut known = false;
            let mut j: usize = 0;
            let labels_len = p.labels.len();
            while j < labels_len
                invariant
                    labels_len == p.labels@.len(),
                    j <= labels_len,
                    value@ == text,
                    known == (exists|k: int|
                        0 <= k < j && (#[trigger] p.labels@[k])@ == text),
                    p.tokens@ == toks0,
                    label_views(p.labels@) == acc,
                decreases labels_len - j,
            {
                if str_eq(p.labels[j].as_str(), value) {
                    known = true;
                }
                j = j + 1;
            }
            proof {
                lemma_seq_has_views(p.labels@, text);
                assert(known == seq_has(acc, text));
            }
            if !known && len > 0 {
                let first = value.get_char(0);
                let last = value.get_char(len - 1);
                if first >= 'A' && first <= 'z' && last == ':' {
                    let trunc = value.substring_char(0, len - 1);
                    if all_alphanumeric(trunc) {
                        proof {
                            assert(prepass_hit(acc, text));
                            assert(trunc@ == text.subrange(0, text.len() - 1));
                        }
                        p.labels.push(trunc.to_owned());
                        proof {
                            assert(label_views(p.labels@) =~= acc.push(
                                text.subrange(0, text.len() - 1),
                            ));
                        }
                    } else {
                        proof {
                            assert(!prepass_hit(acc, text));
                        }
                    }
                }
            }
            i = i + 1;
            proof {
                assert(label_views(p.labels@) == spec_prepass(models(toks0), i as int));
            }
        }
        p
    }

    fn at_end(&self) -> (r: bool)
        ensures
            r == (self.pos >= self.tokens@.len()),
    {
        self.pos >= self.tokens.len()
    }

    fn peek(&self) -> (t: &Token)
        ensures
            t@ == peek_model(self),
            swf(self) ==> t@ == s_peek(pm(self)),
    {
        proof {
            if swf(self) {
                lemma_pm_basics(self);
            }
        }
        if self.pos < self.tokens.len() {
            &self.tokens[self.pos]
        } else {
            &self.sentinel
        }
    }

    fn get(&self, idx: usize) -> (t: &Token)
        ensures
            t@ == if idx < self.tokens@.len() {
                self.tokens@[idx as int]@
            } else {
                self.sentinel@
            },
            swf(self) ==> t@ == s_tok_at(pm(self), idx as int),
    {
        proof {
            if swf(self) {
                lemma_pm_basics(self);
            }
        }
        if idx < self.tokens.len() {
            &self.tokens[idx]
        } else {
            &self.sentinel
        }
    }

    fn get_line(&self) -> (line: u32)
        ensures
            line == if self.pos < self.tokens@.len() {
                self.tokens@[self.pos as int]@.line
            } else {
                0u32
            },
            line == s_line(pm(self)),
    {
        proof {
            assert(models(self.tokens@).len() == self.tokens@.len());
            if self.pos < self.tokens.len() {
                assert(models(self.tokens@)[self.pos as int] == self.tokens@[self.pos as int]@);
            }
        }
        if self.pos < self.tokens.len() {
            *self.tokens[self.pos].get_line()
        } else {
            0
        }
    }

    /// Moves the cursor one token forward; at the end of the stream it
    /// stays on the end marker.
    fn advance(&mut self)
        ensures
            old(self).pos < old(self).tokens@.len() ==> final (self).pos == old(self).pos + 1,
            old(self).pos >= old(self).tokens@.len() ==> final (self).pos == old(self).pos,
            final (self).pos >= old(self).pos,
            final (self).tokens == old(self).tokens,
            final (self).labels == old(self).labels,
            final (self).sentinel == old(self).sentinel,
            final (self).vm == old(self).vm,
            final (self).constants == old(self).constants,
            final (self).mode == old(self).mode,
            final (self).instruction == old(self).instruction,
            pm(final (self)) == s_adv(pm(old(self))),
    {
        proof {
            assert(models(self.tokens@).len() == self.tokens@.len());
        }
        if self.pos < self.tokens.len() {
            self.pos = self.pos + 1;
        }
    }
}

/// Whether every character of a word is alphanumeric.
fn all_alphanumeric(s: &str) -> (r: bool)
    ensures
        r == (forall|i: int| 0 <= i < s@.len() ==> char_is_alphanumeric(#[trigger] s@[i])),
{
    let n = s.unicode_len();
    let mut i: usize = 0;
    while i < n
        invariant
            n == s@.len(),
            i <= n,
            forall|j: int| 0 <= j < i ==> char_is_alphanumeric(#[trigger] s@[j]),
        decreases n - i,
    {
        if !is_alphanumeric_char(s.get_char(i)) {
            return false;
        }
        i = i + 1;
    }
    true
}

proof fn lemma_layout_literals()
    ensures
        ".word"@ != ".ascii"@,
        ".word"@ != ".asciiz"@,
        ".half"@ != ".ascii"@,
        ".half"@ != ".asciiz"@,
        ".byte"@ != ".ascii"@,
        ".byte"@ != ".asciiz"@,
        ".space"@ != ".ascii"@,
        ".space"@ != ".asciiz"@,
        ".ascii"@ != ".asciiz"@,
{
    broadcast use vstd::string::group_string_axioms;

    reveal_strlit(".word");
    reveal_strlit(".half");
    reveal_strlit(".byte");
    reveal_strlit(".space");
    reveal_strlit(".ascii");
    reveal_strlit(".asciiz");
    assert(".word"@.len() == 5);
    assert(".half"@.len() == 5);
    assert(".byte"@.len() == 5);
    assert(".space"@.len() == 6);
    assert(".ascii"@.len() == 6);
    assert(".asciiz"@.len() == 7);
    assert(".space"@[1] == 's' && ".ascii"@[1] == 'a');
}

fn make_err(line: u32, reason: &str) -> (s: String)
    ensures
        s@ == spec_err_msg(line, reason@),
        s@.len() >= 6,
        s@.subrange(0, 6) == "Error:"@,
{
    let mut s = String::from_str("Error:");
    s.append(u32_to_string(line).as_str());
    s.append(":");
    s.append(reason);
    proof {
        broadcast use vstd::string::group_string_axioms;

        reveal_strlit("Error:");
        assert("Error:"@.len() == 6);
        assert(s@.subrange(0, 6) =~= "Error:"@);
    }
    s
}

/// Parses a token stream, discarding the built machine: `Ok` exactly when
/// `parse_vm` accepts, with the same diagnostic otherwise.
pub fn parse(tokens: TokenList) -> (r: Result<(), String>)
    ensures
        match spec_parse_vm(models(tokens@)) {
            Ok(vmm) => r is Ok,
            Err(e) => r matches Err(msg) && msg@ == e,
        },
        !spec_ok_start(models(tokens@)) ==> (r matches Err(e) && e@ == spec_err_msg(
            spec_first_line(models(tokens@)),
            "section annotation"@,
        )),
        r matches Err(e) ==> e@.len() >= 6 && e@.subrange(0, 6) == "Error:"@,
{
    match parse_vm(tokens) {
        Ok(_) => Ok(()),
        Err(error) => Err(error),
    }
}

/// Parses a token stream into a ready-to-run virtual machine.
///
/// The stream must open with a `.data` or `.text` section annotation
/// (otherwise the result is exactly `Error:<line>:section annotation`); the
/// returned machine has cleared registers and counters, no error, and a
/// zero-initialized data segment of `DATA_SEGMENT_SIZE` bytes with the
/// program's data directives laid out at its front.
pub fn parse_vm(tokens: TokenList) -> (r: Result<VirtualMachine, String>)
    ensures
        match spec_parse_vm(models(tokens@)) {
            Ok(vmm) => r matches Ok(vm) && vm@ == vmm,
            Err(e) => r matches Err(msg) && msg@ == e,
        },
        !spec_ok_start(models(tokens@)) ==> (r matches Err(e) && e@ == spec_err_msg(
            spec_first_line(models(tokens@)),
            "section annotation"@,
        )),
        r matches Err(e) ==> e@.len() >= 6 && e@.subrange(0, 6) == "Error:"@,
        r matches Ok(vm) ==> {
            &&& !vm@.error
            &&& vm@.regs == Seq::new(32, |i: int| 0u32)
            &&& vm@.pc == 0u32
            &&& vm@.hi == 0u32
            &&& vm@.lo == 0u32
            &&& vm@.data.len() == crate::DATA_SEGMENT_SIZE
        },
{
    let ghost toks = tokens@;
    let ghost target = spec_parse_vm(models(tokens@));
    let mut parser: Parser = Parser::new(tokens);
    let ghost vm0 = parser.vm@;
    proof {
        assert(parser.tokens@ == toks);
        assert(swf(&parser));
        assert(pm(&parser) == (ParseState {
            vm: init_vm_model(),
            toks: models(toks),
            pos: 0,
            labels: spec_prepass(models(toks), models(toks).len() as int),
            consts: Map::<Seq<char>, Seq<char>>::empty(),
            mode: ParseMode::Error,
            inst: InstructionBuilder::blank(),
        }));
    }
    skip_sections(&mut parser);

    if matches!(parser.mode, ParseMode::Error) {
        let line = parser.get_line();
        proof {
            assert(!spec_ok_start(models(toks)));
            assert(line == spec_first_line(models(toks)));
            assert(target == Err::<VmModel, Seq<char>>(spec_err_msg(line, "section annotation"@)));
        }
        return Err(make_err(line, "section annotation"));
    }
    proof {
        assert(spec_ok_start(models(toks)));
        assert(target == s_parse_lines(pm(&parser)));
    }

    loop
        invariant_except_break
            swf(&parser),
            build_inv(vm0, parser.vm@),
            parser.tokens@ == toks,
            toks == tokens@,
            spec_ok_start(models(toks)),
            target == spec_parse_vm(models(tokens@)),
            target == s_parse_lines(pm(&parser)),
            !vm0.error,
            vm0.regs == Seq::new(32, |i: int| 0u32),
            vm0.pc == 0u32,
            vm0.hi == 0u32,
            vm0.lo == 0u32,
            vm0.data.len() == crate::DATA_SEGMENT_SIZE,
        ensures
            build_inv(vm0, parser.vm@),
            target == spec_parse_vm(models(tokens@)),
            target == Ok::<VmModel, Seq<char>>(parser.vm@),
            !vm0.error,
            vm0.regs == Seq::new(32, |i: int| 0u32),
            vm0.pc == 0u32,
            vm0.hi == 0u32,
            vm0.lo == 0u32,
            vm0.data.len() == crate::DATA_SEGMENT_SIZE,
        decreases remaining(&parser),
    {
        let ghost lines_pre = pm(&parser);
        if !skip_sections(&mut parser) {
            proof {
                assert(s_parse_lines(lines_pre) == Ok::<VmModel, Seq<char>>(pm(&parser).vm));
            }
            break ;
        }
        let more_sections = str_eq(parser.peek().get_value(), ".data") || str_eq(
            parser.peek().get_value(),
            ".text",
        );
        if more_sections {
            // A section word that the annotation scan left standing has no
            // end of line after it; the stream is rejected.
            let line = parser.get_line();
            proof {
                assert(s_parse_lines(lines_pre) == Err::<VmModel, Seq<char>>(
                    spec_err_msg(line, "section annotation"@),
                ));
            }
            return Err(make_err(line, "section annotation"));
        }
        match parser.mode {
            ParseMode::Data => {
                if !parse_declaration(&mut parser) {
                    let line = parser.get_line();
                    proof {
                        assert(s_parse_lines(lines_pre) == Err::<VmModel, Seq<char>>(
                            spec_err_msg(line, "invalid declaration"@),
                        ));
                    }
                    return Err(make_err(line, "invalid declaration"));
                }
            },
            ParseMode::Text => {
                if !parse_instruction(&mut parser) {
                    let line = parser.get_line();
                    proof {
                        assert(s_parse_lines(lines_pre) == Err::<VmModel, Seq<char>>(
                            spec_err_msg(line, "invalid instruction"@),
                        ));
                    }
                    return Err(make_err(line, "invalid instruction"));
                }
            },
            ParseMode::Error => {
                let line = parser.get_line();
                proof {
                    assert(s_parse_lines(lines_pre) == Err::<VmModel, Seq<char>>(
                        spec_err_msg(line, "unexpected EOF"@),
                    ));
                }
                return Err(make_err(line, "unexpected EOF"));
            },
        }
        parser.advance();
        proof {
            assert(s_parse_lines(lines_pre) == s_parse_lines(pm(&parser)));
        }
    }

    proof {
        assert(build_inv(vm0, parser.vm@));
    }
    Ok(parser.vm)
}

/// Consumes every `.data`/`.text` annotation pair (annotation word followed
/// by an end of line) at the cursor, switching the parse mode; reports
/// whether at least two tokens remain to parse.
fn skip_sections(parser: &mut Parser) -> (more: bool)
    requires
        swf(old(parser)),
    ensures
        frame(old(parser), final (parser)),
        s_skip(pm(old(parser))) == (pm(final (parser)), more),
        final (parser).constants == old(parser).constants,
        final (parser).instruction == old(parser).instruction,
        final (parser).vm@ == old(parser).vm@,
        final (parser).pos >= old(parser).pos,
        more == (final (parser).pos + 1 < final (parser).tokens@.len()),
        old(parser).pos == 0 && !spec_ok_start(models(old(parser).tokens@)) ==> (final (
        parser).mode == old(parser).mode && final (parser).pos == 0),
        old(parser).pos == 0 && spec_ok_start(models(old(parser).tokens@)) ==> final (parser).mode
            != ParseMode::Error,
{
    let ghost entry = *parser;
    loop
        invariant
            frame(&entry, parser),
            swf(&entry),
            swf(parser),
            parser.constants == entry.constants,
            parser.instruction == entry.instruction,
            parser.vm@ == entry.vm@,
            parser.pos >= entry.pos,
            entry == *old(parser),
            s_skip(pm(&entry)) == s_skip(pm(parser)),
            entry.pos == 0 && !spec_ok_start(models(entry.tokens@)) ==> (parser.mode == entry.mode
                && parser.pos == 0),
            entry.pos == 0 && spec_ok_start(models(entry.tokens@)) ==> ((parser.pos == 0
                && parser.mode == entry.mode) || (parser.pos > 0 && parser.mode
                != ParseMode::Error)),
        decreases remaining(parser),
    {
        let len = parser.tokens.len();
        proof {
            assert(models(parser.tokens@).len() == parser.tokens@.len());
        }
        if parser.at_end() {
            proof {
                assert(s_skip(pm(parser)) == (pm(parser), false));
            }
            return false;
        }
        proof {
            assert(parser.pos < len);
        }
        if parser.pos + 1 >= len {
            proof {
                assert(s_skip(pm(parser)) == (pm(parser), false));
            }
            return false;
        }
        let next_idx = parser.pos + 1;
        let is_text = str_eq(parser.peek().get_value(), ".text");
        let is_data = str_eq(parser.peek().get_value(), ".data");
        let next_is_eol = matches!(*parser.get(next_idx).get_type(), TokenType::Eol);
        proof {
            lemma_pm_basics(parser);
            if parser.pos == 0 {
                assert(models(entry.tokens@).len() == entry.tokens@.len());
                if entry.tokens@.len() >= 2 {
                    assert(models(entry.tokens@)[0] == entry.tokens@[0]@);
                    assert(models(entry.tokens@)[1] == entry.tokens@[1]@);
                }
                assert(((is_text || is_data) && next_is_eol) == spec_ok_start(
                    models(entry.tokens@),
                ));
            }
        }
        if is_text && next_is_eol {
            let ghost pre = pm(parser);
            parser.mode = ParseMode::Text;
            proof {
                assert(pm(parser) == (ParseState { mode: ParseMode::Text, ..pre }));
            }
            parser.advance();
            parser.advance();
            proof {
                assert(s_skip(pre) == s_skip(pm(parser)));
            }
        } else if is_data && next_is_eol {
            let ghost pre = pm(parser);
            parser.mode = ParseMode::Data;
            proof {
                assert(pm(parser) == (ParseState { mode: ParseMode::Data, ..pre }));
            }
            parser.advance();
            parser.advance();
            proof {
                assert(s_skip(pre) == s_skip(pm(parser)));
            }
        } else {
            proof {
                assert(s_skip(pm(parser)) == (pm(parser), true));
            }
            return true;
        }
    }
}

/// One data-mode line: a constant definition, a label declaration optionally
/// followed by a layout directive, or a bare layout directive.
fn parse_declaration(parser: &mut Parser) -> (r: bool)
    requires
        swf(old(parser)),
    ensures
        frame(old(parser), final (parser)),
        final (parser).pos >= old(parser).pos,
        s_parse_declaration(pm(old(parser))) == (pm(final (parser)), r),
{
    if parse_constant(parser) {
        parser.advance();
        return matches!(*parser.peek().get_type(), TokenType::Eol);
    }
    if parse_label_declaration(parser) {
        parser.advance();
        if matches!(*parser.peek().get_type(), TokenType::Eol) {
            return true;
        }
        if parse_layout(parser) {
            return matches!(*parser.peek().get_type(), TokenType::Eol);
        }
        return false;
    }
    if parse_layout(parser) {
        return matches!(*parser.peek().get_type(), TokenType::Eol);
    }
    false
}

/// One text-mode line: a label declaration, an operation, or a label
/// declaration followed by an operation.
fn parse_instruction(parser: &mut Parser) -> (r: bool)
    requires
        swf(old(parser)),
    ensures
        frame(old(parser), final (parser)),
        final (parser).pos >= old(parser).pos,
        s_parse_instruction(pm(old(parser))) == (pm(final (parser)), r),
{
    if parse_label_declaration(parser) {
        parser.advance();
        if parse_operation(parser) {
            parser.advance();
            return matches!(*parser.peek().get_type(), TokenType::Eol);
        }
        return matches!(*parser.peek().get_type(), TokenType::Eol);
    }
    if parse_operation(parser) {
        parser.advance();
        return matches!(*parser.peek().get_type(), TokenType::Eol);
    }
    false
}

/// One operation, tried family by family; a recognized operation is frozen
/// into the instruction stream.
fn parse_operation(parser: &mut Parser) -> (r: bool)
    requires
        swf(old(parser)),
    ensures
        frame(old(parser), final (parser)),
        final (parser).pos >= old(parser).pos,
        s_parse_operation(pm(old(parser))) == (pm(final (parser)), r),
{
    let line = parser.get_line();
    parser.instruction.set_line(line);
    if parse_data_movement(parser) {
        let inst = parser.instruction.get_inst();
        parser.vm.add_instruction(inst);
        return true;
    }
    if parse_int_arithmetic(parser) {
        let inst = parser.instruction.get_inst();
        parser.vm.add_instruction(inst);
        return true;
    }
    if parse_logical(parser) {
        let inst = parser.instruction.get_inst();
        parser.vm.add_instruction(inst);
        return true;
    }
    if parse_control(parser) {
        let inst = parser.instruction.get_inst();
        parser.vm.add_instruction(inst);
        return true;
    }
    if str_eq(parser.peek().get_value(), "nop") {
        parser.instruction.set_opcode("nop");
        let inst = parser.instruction.get_inst();
        parser.vm.add_instruction(inst);
        return true;
    }
    false
}

/// The control family: conditional branches and the unconditional jump.
fn parse_control(parser: &mut Parser) -> (r: bool)
    requires
        swf(old(parser)),
    ensures
        frame(old(parser), final (parser)),
        final (parser).pos >= old(parser).pos,
        s_parse_control(pm(old(parser))) == (pm(final (parser)), r),
{
    let mnemonic: String = parser.peek().get_value().to_owned();
    parser.instruction.set_opcode(mnemonic.as_str());
    let is_branch = str_eq(mnemonic.as_str(), "beq") || str_eq(mnemonic.as_str(), "bne") || str_eq(
        mnemonic.as_str(),
        "blt",
    ) || str_eq(mnemonic.as_str(), "ble") || str_eq(mnemonic.as_str(), "bgt") || str_eq(
        mnemonic.as_str(),
        "bge",
    );
    if is_branch {
        parser.advance();
        if !parse_reg_sep(parser) {
            return false;
        }
        parser.advance();
        if parse_register(parser) {
            parser.advance();
        } else if parse_immediate(parser) {
            parser.advance();
        } else {
            return false;
        }
        if !matches!(*parser.peek().get_type(), TokenType::Sep) {
            return false;
        }
        parser.advance();
        parse_label_reference(parser)
    } else if str_eq(mnemonic.as_str(), "j") {
        parser.advance();
        parse_label_reference(parser)
    } else {
        false
    }
}

/// The logical family: `and`/`nor`/`or`/`xor` and the unary `not`.
fn parse_logical(parser: &mut Parser) -> (r: bool)
    requires
        swf(old(parser)),
    ensures
        frame(old(parser), final (parser)),
        final (parser).pos >= old(parser).pos,
        s_parse_logical(pm(old(parser))) == (pm(final (parser)), r),
{
    let mnemonic: String = parser.peek().get_value().to_owned();
    parser.instruction.set_opcode(mnemonic.as_str());
    let is_binary = str_eq(mnemonic.as_str(), "and") || str_eq(mnemonic.as_str(), "nor") || str_eq(
        mnemonic.as_str(),
        "or",
    ) || str_eq(mnemonic.as_str(), "xor");
    if is_binary {
        parser.advance();
        if !parse_reg_sep(parser) {
            return false;
        }
        parser.advance();
        if !parse_reg_sep(parser) {
            return false;
        }
        parser.advance();
        parse_register(parser) || parse_immediate(parser)
    } else if str_eq(mnemonic.as_str(), "not") {
        parser.advance();
        if !parse_reg_sep(parser) {
            return false;
        }
        parser.advance();
        parse_register(parser) || parse_immediate(parser)
    } else {
        false
    }
}

/// The integer arithmetic family, including the HI/LO-writing multiplies
/// and the divisions with their optional third operand.
#[verifier::rlimit(100)]
fn parse_int_arithmetic(parser: &mut Parser) -> (r: bool)
    requires
        swf(old(parser)),
    ensures
        frame(old(parser), final (parser)),
        final (parser).pos >= old(parser).pos,
        s_parse_int_arithmetic(pm(old(parser))) == (pm(final (parser)), r),
{
    let mnemonic: String = parser.peek().get_value().to_owned();
    parser.instruction.set_opcode(mnemonic.as_str());
    let is_three_op = str_eq(mnemonic.as_str(), "add") || str_eq(mnemonic.as_str(), "addu")
        || str_eq(mnemonic.as_str(), "sub") || str_eq(mnemonic.as_str(), "subu") || str_eq(
        mnemonic.as_str(),
        "mul",
    ) || str_eq(mnemonic.as_str(), "mulo") || str_eq(mnemonic.as_str(), "mulou") || str_eq(
        mnemonic.as_str(),
        "rem",
    ) || str_eq(mnemonic.as_str(), "remu");
    let is_two_op = str_eq(mnemonic.as_str(), "mult") || str_eq(mnemonic.as_str(), "multu")
        || str_eq(mnemonic.as_str(), "abs") || str_eq(mnemonic.as_str(), "neg") || str_eq(
        mnemonic.as_str(),
        "negu",
    );
    let is_div = str_eq(mnemonic.as_str(), "div") || str_eq(mnemonic.as_str(), "divu");
    if is_three_op {
        parser.advance();
        if !parse_reg_sep(parser) {
            return false;
        }
        parser.advance();
        if !parse_reg_sep(parser) {
            return false;
        }
        parser.advance();
        parse_register(parser) || parse_immediate(parser)
    } else if is_two_op {
        parser.advance();
        if !parse_reg_sep(parser) {
            return false;
        }
        parser.advance();
        parse_register(parser)
    } else if is_div {
        parser.advance();
        if !parse_reg_sep(parser) {
            return false;
        }
        parser.advance();
        if !parse_register(parser) {
            return false;
        }
        // The optional third operand: a separator after the second register
        // continues the list; anything else leaves the cursor on the
        // register, un-consuming the probe.
        let stream_len = parser.tokens.len();
        proof {
            assert(parser.tokens@.len() == stream_len);
            assert(swf(parser));
        }
        let next_sep = if parser.pos < usize::MAX {
            matches!(*parser.get(parser.pos + 1).get_type(), TokenType::Sep)
        } else {
            false
        };
        proof {
            lemma_pm_basics(parser);
            assert(next_sep == (s_tok_at(pm(parser), pm(parser).pos + 1).kind == TokenType::Sep));
        }
        if next_sep {
            parser.advance();
            parser.advance();
            parse_register(parser) || parse_immediate(parser)
        } else {
            true
        }
    } else {
        false
    }
}

/// A register operand followed by a separator.
fn parse_reg_sep(parser: &mut Parser) -> (r: bool)
    requires
        swf(old(parser)),
    ensures
        frame(old(parser), final (parser)),
        final (parser).constants == old(parser).constants,
        final (parser).mode == old(parser).mode,
        final (parser).vm@ == old(parser).vm@,
        old(parser).pos <= final (parser).pos <= old(parser).pos + 1,
        s_parse_reg_sep(pm(old(parser))) == (pm(final (parser)), r),
{
    if !parse_register(parser) {
        return false;
    }
    parser.advance();
    matches!(*parser.peek().get_type(), TokenType::Sep)
}

/// A memory reference: a label, a register, a bare immediate, or an
/// optional offset before a parenthesized base.
fn parse_memref(parser: &mut Parser) -> (r: bool)
    requires
        swf(old(parser)),
    ensures
        frame(old(parser), final (parser)),
        final (parser).pos >= old(parser).pos,
        s_parse_memref(pm(old(parser))) == (pm(final (parser)), r),
{
    if parse_label_reference(parser) {
        return true;
    }
    if parse_register(parser) {
        return true;
    }
    let stream_len = parser.tokens.len();
    proof {
        assert(parser.tokens@.len() == stream_len);
        assert(swf(parser));
    }
    let next_is_paren = if parser.pos < usize::MAX {
        matches!(*parser.get(parser.pos + 1).get_type(), TokenType::OpenParen)
    } else {
        false
    };
    proof {
        lemma_pm_basics(parser);
        assert(next_is_paren == (s_tok_at(pm(parser), pm(parser).pos + 1).kind
            == TokenType::OpenParen));
    }
    if !next_is_paren && parse_immediate(parser) {
        return true;
    }
    if parse_offset(parser) {
        parser.advance();
    }
    if !matches!(*parser.peek().get_type(), TokenType::OpenParen) {
        return false;
    }
    parser.advance();
    if !parse_register(parser) && !parse_immediate(parser) && !parse_label_reference(parser) {
        return false;
    }
    parser.advance();
    matches!(*parser.peek().get_type(), TokenType::CloseParen)
}

/// A numeric offset before a parenthesized base register.
fn parse_offset(parser: &mut Parser) -> (r: bool)
    requires
        swf(old(parser)),
    ensures
        frame(old(parser), final (parser)),
        final (parser).constants == old(parser).constants,
        final (parser).mode == old(parser).mode,
        final (parser).vm@ == old(parser).vm@,
        final (parser).pos == old(parser).pos,
        s_parse_offset(pm(old(parser))) == (pm(final (parser)), r),
{
    proof {
        lemma_pm_basics(parser);
    }
    let value: String = parser.peek().get_value().to_owned();
    if layout_int_compat(".word", value.as_str()) {
        match crate::numbers::parse_u32(value.as_str()) {
            Some(v) => {
                parser.instruction.add_arg(Argument::Offset(v));
                true
            },
            None => false,
        }
    } else {
        false
    }
}

/// A reference to a label the pre-pass discovered.
fn parse_label_reference(parser: &mut Parser) -> (r: bool)
    requires
        swf(old(parser)),
    ensures
        frame(old(parser), final (parser)),
        final (parser).constants == old(parser).constants,
        final (parser).mode == old(parser).mode,
        final (parser).vm@ == old(parser).vm@,
        final (parser).pos == old(parser).pos,
        s_parse_label_reference(pm(old(parser))) == (pm(final (parser)), r),
{
    proof {
        lemma_pm_basics(parser);
        lemma_seq_has_bridge(parser, peek_model(parser).text);
    }
    let value: String = parser.peek().get_value().to_owned();
    if labels_contain(parser, value.as_str()) {
        parser.instruction.add_arg(Argument::Label(value));
        true
    } else {
        false
    }
}

/// Whether the pre-pass registered a name as a label.
fn labels_contain(parser: &Parser, name: &str) -> (r: bool)
    ensures
        r == (exists|j: int|
            0 <= j < parser.labels@.len() && (#[trigger] parser.labels@[j])@ == name@),
{
    let n = parser.labels.len();
    let mut j: usize = 0;
    while j < n
        invariant
            n == parser.labels@.len(),
            j <= n,
            forall|k: int| 0 <= k < j ==> (#[trigger] parser.labels@[k])@ != name@,
        decreases n - j,
    {
        if str_eq(parser.labels[j].as_str(), name) {
            return true;
        }
        j = j + 1;
    }
    false
}

/// The data movement family: HI/LO transfers, loads, stores, `move`, `li`.
fn parse_data_movement(parser: &mut Parser) -> (r: bool)
    requires
        swf(old(parser)),
    ensures
        frame(old(parser), final (parser)),
        final (parser).pos >= old(parser).pos,
        s_parse_data_movement(pm(old(parser))) == (pm(final (parser)), r),
{
    let mnemonic: String = parser.peek().get_value().to_owned();
    parser.instruction.set_opcode(mnemonic.as_str());
    let is_hilo = str_eq(mnemonic.as_str(), "mfhi") || str_eq(mnemonic.as_str(), "mflo") || str_eq(
        mnemonic.as_str(),
        "mthi",
    ) || str_eq(mnemonic.as_str(), "mtlo");
    let is_mem = str_eq(mnemonic.as_str(), "lw") || str_eq(mnemonic.as_str(), "lh") || str_eq(
        mnemonic.as_str(),
        "lb",
    ) || str_eq(mnemonic.as_str(), "la") || str_eq(mnemonic.as_str(), "sw") || str_eq(
        mnemonic.as_str(),
        "sh",
    ) || str_eq(mnemonic.as_str(), "sb");
    if is_hilo {
        parser.advance();
        parse_register(parser)
    } else if is_mem {
        parser.advance();
        if !parse_reg_sep(parser) {
            return false;
        }
        parser.advance();
        parse_memref(parser)
    } else if str_eq(mnemonic.as_str(), "move") {
        parser.advance();
        if !parse_reg_sep(parser) {
            return false;
        }
        parser.advance();
        parse_register(parser)
    } else if str_eq(mnemonic.as_str(), "li") {
        parser.advance();
        if !parse_reg_sep(parser) {
            return false;
        }
        parser.advance();
        parse_immediate(parser)
    } else {
        false
    }
}

/// The low 32 bits of a literal already checked against the word range.
fn imm_of_i64(v: i64) -> (r: u32)
    requires
        -0x8000_0000 <= v <= 0xFFFF_FFFF,
    ensures
        r as int == (v as int) % 0x1_0000_0000,
{
    if v >= 0 {
        v as u32
    } else {
        (v + 0x1_0000_0000i64) as u32
    }
}

/// An immediate operand: a constant name, or a literal in the word range.
fn parse_immediate(parser: &mut Parser) -> (r: bool)
    requires
        swf(old(parser)),
    ensures
        frame(old(parser), final (parser)),
        final (parser).constants == old(parser).constants,
        final (parser).mode == old(parser).mode,
        final (parser).vm@ == old(parser).vm@,
        final (parser).pos == old(parser).pos,
        s_parse_immediate(pm(old(parser))) == (pm(final (parser)), r),
{
    proof {
        lemma_pm_basics(parser);
    }
    let value: String = parser.peek().get_value().to_owned();
    let looked_up: Option<String> = match parser.constants.get(value.as_str()) {
        Some(c) => Some(c.clone()),
        None => None,
    };
    match looked_up {
        Some(constant) => {
            if layout_int_compat(".word", constant.as_str()) {
                proof {
                    crate::numbers::lemma_parse_i64_nonneg(constant@);
                }
                let v = match parse_i64(constant.as_str()) {
                    Some(v) => v,
                    None => {
                        proof {
                            assert(false);
                        }
                        0
                    },
                };
                parser.instruction.add_arg(Argument::Immediate(imm_of_i64(v)));
                true
            } else {
                false
            }
        },
        None => {
            if layout_int_compat(".word", value.as_str()) {
                proof {
                    crate::numbers::lemma_parse_i64_nonneg(value@);
                }
                let v = match parse_i64(value.as_str()) {
                    Some(v) => v,
                    None => {
                        proof {
                            assert(false);
                        }
                        0
                    },
                };
                parser.instruction.add_arg(Argument::Immediate(imm_of_i64(v)));
                true
            } else {
                false
            }
        },
    }
}

/// A register operand; the special registers PC, HI and LO are not valid in
/// ordinary operand positions.
fn parse_register(parser: &mut Parser) -> (r: bool)
    requires
        swf(old(parser)),
    ensures
        frame(old(parser), final (parser)),
        final (parser).constants == old(parser).constants,
        final (parser).mode == old(parser).mode,
        final (parser).vm@ == old(parser).vm@,
        final (parser).pos == old(parser).pos,
        s_parse_register(pm(old(parser))) == (pm(final (parser)), r),
{
    proof {
        lemma_pm_basics(parser);
    }
    let value: String = parser.peek().get_value().to_owned();
    match get_valid_register(value.as_str()) {
        Some(reg) => match reg {
            RegisterKind::RegHi | RegisterKind::RegLo | RegisterKind::RegPC => false,
            _ => {
                parser.instruction.add_arg(Argument::Register(reg));
                true
            },
        },
        None => false,
    }
}

/// Whether the cursor stands on an integer layout directive.
fn parse_int_layout(parser: &Parser) -> (r: bool)
    ensures
        r == (peek_model(parser).text == ".word"@ || peek_model(parser).text == ".byte"@
            || peek_model(parser).text == ".half"@ || peek_model(parser).text == ".space"@),
{
    let v = parser.peek().get_value();
    str_eq(v, ".word") || str_eq(v, ".byte") || str_eq(v, ".half") || str_eq(v, ".space")
}

/// Whether the cursor stands on a string layout directive.
fn parse_string_layout(parser: &Parser) -> (r: bool)
    ensures
        r == (peek_model(parser).text == ".ascii"@ || peek_model(parser).text == ".asciiz"@),
{
    let v = parser.peek().get_value();
    str_eq(v, ".ascii") || str_eq(v, ".asciiz")
}

/// Range and sign compatibility of a literal with a layout directive.
fn layout_int_compat(layout: &str, value: &str) -> (r: bool)
    ensures
        r == spec_layout_compat(layout@, value@),
{
    let n = value.unicode_len();
    let signed = n > 0 && (value.get_char(0) == '+' || value.get_char(0) == '-');
    match parse_i64(value) {
        Some(val) => {
            if str_eq(layout, ".word") {
                if signed {
                    -0x8000_0000i64 <= val && val <= 0x7FFF_FFFFi64
                } else {
                    val <= 0xFFFF_FFFFi64
                }
            } else if str_eq(layout, ".half") {
                if signed {
                    -0x8000i64 <= val && val <= 0x7FFFi64
                } else {
                    val <= 0xFFFFi64
                }
            } else if str_eq(layout, ".byte") {
                if signed {
                    -0x80i64 <= val && val <= 0x7Fi64
                } else {
                    val <= 0xFFi64
                }
            } else if str_eq(layout, ".space") {
                if signed {
                    0i64 < val && val <= 0x7FFF_FFFFi64
                } else {
                    val <= 0xFFFF_FFFFi64
                }
            } else {
                false
            }
        },
        None => false,
    }
}

/// A layout directive with its arguments: one or more comma-separated
/// integers, a single space reservation, or one quoted ASCII string. The
/// laid-out bytes go to the machine's data segment; a directive the segment
/// cannot hold fails the parse.
#[verifier::rlimit(100)]
fn parse_layout(parser: &mut Parser) -> (r: bool)
    requires
        swf(old(parser)),
    ensures
        frame(old(parser), final (parser)),
        final (parser).pos >= old(parser).pos,
        s_parse_layout(pm(old(parser))) == (pm(final (parser)), r),
{
    let ghost p_entry = pm(old(parser));
    proof {
        lemma_pm_basics(parser);
    }
    if parse_int_layout(parser) {
        let layout: String = parser.peek().get_value().to_owned();
        proof {
            lemma_layout_literals();
            assert(layout@ == ".word"@ || layout@ == ".byte"@ || layout@ == ".half"@ || layout@
                == ".space"@);
        }
        parser.advance();
        let first: String = parser.peek().get_value().to_owned();
        if !layout_int_compat(layout.as_str(), first.as_str()) {
            let constant: Option<String> = match parser.constants.get(first.as_str()) {
                Some(c) => Some(c.clone()),
                None => None,
            };
            match constant {
                Some(cval) => {
                    if !layout_int_compat(layout.as_str(), cval.as_str()) {
                        proof {
                            assert(s_parse_layout(p_entry) == (pm(parser), false));
                        }
                        return false;
                    }
                    if !parser.vm.add_data(layout.as_str(), cval.as_str()) {
                        proof {
                            assert(s_parse_layout(p_entry) == (pm(parser), false));
                        }
                        return false;
                    }
                },
                None => {
                    proof {
                        assert(s_parse_layout(p_entry) == (pm(parser), false));
                    }
                    return false;
                },
            }
        } else {
            if !parser.vm.add_data(layout.as_str(), first.as_str()) {
                proof {
                    assert(s_parse_layout(p_entry) == (pm(parser), false));
                }
                return false;
            }
        }
        parser.advance();
        if str_eq(layout.as_str(), ".space") {
            proof {
                lemma_pm_basics(parser);
                assert(s_parse_layout(p_entry) == s_layout_tail(pm(parser), layout@));
            }
            return matches!(*parser.peek().get_type(), TokenType::Eol);
        }
        let ghost lay_target = s_parse_layout(p_entry);
        proof {
            assert(lay_target == s_layout_items(pm(parser), layout@));
        }
        loop
            invariant_except_break
                frame(old(parser), parser),
                swf(parser),
                parser.pos >= old(parser).pos,
                layout@ == ".word"@ || layout@ == ".half"@ || layout@ == ".byte"@ || layout@
                    == ".space"@,
                lay_target == s_parse_layout(pm(old(parser))),
                lay_target == s_layout_items(pm(parser), layout@),
            ensures
                frame(old(parser), parser),
                parser.pos >= old(parser).pos,
                lay_target == s_parse_layout(pm(old(parser))),
                lay_target == (pm(parser), true),
            decreases remaining(parser),
        {
            proof {
                assert(models(parser.tokens@).len() == parser.tokens@.len());
            }
            if parser.at_end() || matches!(*parser.peek().get_type(), TokenType::Eol) {
                proof {
                    assert(s_layout_items(pm(parser), layout@) == (pm(parser), true));
                }
                break ;
            }
            if !matches!(*parser.peek().get_type(), TokenType::Sep) {
                proof {
                    assert(s_layout_items(pm(parser), layout@) == (pm(parser), false));
                }
                return false;
            }
            let ghost pos_before = parser.pos;
            let ghost items_pre = pm(parser);
            parser.advance();
            let next: String = parser.peek().get_value().to_owned();
            if !layout_int_compat(layout.as_str(), next.as_str()) {
                proof {
                    assert(s_layout_items(items_pre, layout@) == (pm(parser), false));
                }
                return false;
            }
            proof {
                lemma_layout_literals();
            }
            if !parser.vm.add_data(layout.as_str(), next.as_str()) {
                proof {
                    assert(s_layout_items(items_pre, layout@) == (pm(parser), false));
                }
                return false;
            }
            parser.advance();
            proof {
                assert(parser.pos > pos_before);
                assert(s_layout_items(items_pre, layout@) == s_layout_items(pm(parser), layout@));
            }
        }
        true
    } else if parse_string_layout(parser) {
        let layout: String = parser.peek().get_value().to_owned();
        proof {
            lemma_layout_literals();
            assert(layout@ == ".ascii"@ || layout@ == ".asciiz"@);
        }
        parser.advance();
        if !parse_string(parser) {
            proof {
                assert(s_parse_layout(p_entry) == (pm(parser), false));
            }
            return false;
        }
        let text: String = parser.get(parser.pos - 1).get_value().to_owned();
        proof {
            lemma_layout_literals();
            assert(text@ == s_tok_at(pm(parser), pm(parser).pos - 1).text);
        }
        if !parser.vm.add_data(layout.as_str(), text.as_str()) {
            proof {
                assert(s_parse_layout(p_entry) == (pm(parser), false));
            }
            return false;
        }
        parser.advance();
        proof {
            lemma_pm_basics(parser);
        }
        let string_end = matches!(*parser.peek().get_type(), TokenType::Eol);
        proof {
            assert(s_parse_layout(p_entry) == (pm(parser), string_end));
        }
        string_end
    } else {
        proof {
            assert(s_parse_layout(p_entry) == (pm(parser), false));
        }
        false
    }
}

/// A label declaration: a pre-pass-known name with its trailing colon. The
/// name binds to the data cursor in data mode and to the next instruction
/// index in text mode.
fn parse_label_declaration(parser: &mut Parser) -> (r: bool)
    requires
        swf(old(parser)),
    ensures
        frame(old(parser), final (parser)),
        final (parser).constants == old(parser).constants,
        final (parser).mode == old(parser).mode,
        final (parser).pos == old(parser).pos,
        s_parse_label_declaration(pm(old(parser))) == (pm(final (parser)), r),
{
    proof {
        lemma_pm_basics(parser);
    }
    let value: String = parser.peek().get_value().to_owned();
    let n = value.as_str().unicode_len();
    if n == 0 {
        return false;
    }
    let label_trunc: String = value.as_str().substring_char(0, n - 1).to_owned();
    proof {
        lemma_seq_has_bridge(parser, label_trunc@);
    }
    if !labels_contain(parser, label_trunc.as_str()) {
        return false;
    }
    match parser.mode {
        ParseMode::Data => {
            parser.vm.insert_label(LabelType::Data(label_trunc));
            true
        },
        ParseMode::Text => {
            parser.vm.insert_label(LabelType::Instruction(label_trunc));
            true
        },
        ParseMode::Error => false,
    }
}

/// A quoted string: a delimiter, one ASCII string token, then the closing
/// delimiter is implicit in the token stream shape.
fn parse_string(parser: &mut Parser) -> (r: bool)
    requires
        swf(old(parser)),
    ensures
        frame(old(parser), final (parser)),
        final (parser).constants == old(parser).constants,
        final (parser).mode == old(parser).mode,
        final (parser).vm@ == old(parser).vm@,
        final (parser).pos >= old(parser).pos,
        r ==> final (parser).pos >= 1 && final (parser).pos - 1 < final (parser).tokens@.len()
            && vstd::utf8::is_ascii_chars(final (parser).tokens@[final (parser).pos - 1]@.text),
        s_parse_string(pm(old(parser))) == (pm(final (parser)), r),
{
    if !matches!(*parser.peek().get_type(), TokenType::StringDelim) {
        return false;
    }
    parser.advance();
    if !matches!(*parser.peek().get_type(), TokenType::String) {
        return false;
    }
    if !parser.peek().get_value().is_ascii() {
        return false;
    }
    if parser.at_end() {
        return false;
    }
    parser.advance();
    true
}

/// A constant definition line: `NAME = integer`, the name alphabetic-first
/// and alphanumeric throughout; the value is recorded in canonical decimal.
fn parse_constant(parser: &mut Parser) -> (r: bool)
    requires
        swf(old(parser)),
    ensures
        frame(old(parser), final (parser)),
        final (parser).mode == old(parser).mode,
        final (parser).vm@ == old(parser).vm@,
        final (parser).pos >= old(parser).pos,
        s_parse_constant(pm(old(parser))) == (pm(final (parser)), r),
{
    proof {
        lemma_pm_basics(parser);
    }
    let value: String = parser.peek().get_value().to_owned();
    let n = value.as_str().unicode_len();
    if n == 0 {
        return false;
    }
    if !is_alphabetic_char(value.as_str().get_char(0)) {
        return false;
    }
    if !all_alphanumeric(value.as_str()) {
        return false;
    }
    parser.advance();
    if !matches!(*parser.peek().get_type(), TokenType::Equal) {
        return false;
    }
    parser.advance();
    let rhs: String = parser.peek().get_value().to_owned();
    let known = match parser.constants.get(rhs.as_str()) {
        Some(_) => true,
        None => false,
    };
    if known {
        return true;
    }
    match parse_i64(rhs.as_str()) {
        Some(const_val) => {
            parser.constants.insert(value, crate::text::i64_to_string(const_val));
            true
        },
        None => false,
    }
}

} // verus!
