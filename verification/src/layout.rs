//! The address-assignment walk: one forward pass over the classified
//! lines that switches segments, assigns the running address, records
//! every code label in the symbol table, and reads each instruction and
//! data line into its in-memory form, split into the two segment streams.
//!
//! Data labels are left to the encoding run, which records them at their
//! final addresses during its own data walk.

use vstd::prelude::*;

use crate::argument_bundle::bundle_ok;
use crate::argument_bundle::bundle_spec;
use crate::argument_bundle::cand_outcome;
use crate::argument_bundle::i_bundle;
use crate::argument_bundle::j_bundle;
use crate::argument_bundle::ArgumentBundle;
use crate::data::data_spec;
use crate::data::Data;
use crate::errors::SyntaxError;
use crate::instruction::match_func_spec;
use crate::instruction::Instruction;
use crate::instruction::InstructionType;
use crate::opcodes;
use crate::preprocess::LineTag;
use crate::relf_headers::Sections;
use crate::strutil::all_digits;
use crate::strutil::ascii_lowercase;
use crate::strutil::lower_seq;
use crate::strutil::split_spec;
use crate::tag_resolution::log_addr;
use crate::tag_resolution::Tag;
use crate::tag_resolution::TagContext;

verus! {

/// The walk's running state: the address counter, the current segment,
/// the two base addresses, how many entries each segment stream holds,
/// and the symbol table.
pub ghost struct WalkState {
    pub addr: u32,
    pub is_code: bool,
    pub code_base: u32,
    pub data_base: u32,
    pub n_code: nat,
    pub n_data: nat,
    pub map: Map<Seq<char>, Option<u32>>,
}

/// The walk's state before any line, over the given symbol table.
pub open spec fn init_walk(m: Map<Seq<char>, Option<u32>>) -> WalkState {
    WalkState { addr: 0, is_code: false, code_base: 0, data_base: 0, n_code: 0, n_data: 0, map: m }
}

/// The symbol-table effect of reading a branch/jump target at position
/// `i` of an operand token list: an unknown symbol name enters as
/// pending; literals and known names leave the table unchanged.
pub open spec fn cand_effect(
    toks: Seq<Seq<char>>,
    i: int,
    m: Map<Seq<char>, Option<u32>>,
) -> Map<Seq<char>, Option<u32>> {
    if 0 <= i < toks.len() && !all_digits(toks[i]) && !m.contains_key(toks[i]) {
        m.insert(toks[i], None)
    } else {
        m
    }
}

/// The symbol-table effect of reading one instruction's operands.
pub open spec fn bundle_effect(
    toks: Seq<Seq<char>>,
    itype: InstructionType,
    func: u32,
    m: Map<Seq<char>, Option<u32>>,
) -> Map<Seq<char>, Option<u32>> {
    match itype {
        InstructionType::I => if func == opcodes::I_BGTZ || func == opcodes::I_BLEZ {
            cand_effect(toks, 1, m)
        } else if func == opcodes::I_BNE || func == opcodes::I_BEQ {
            cand_effect(toks, 2, m)
        } else {
            m
        },
        InstructionType::J => cand_effect(toks, 0, m),
        _ => m,
    }
}

/// The symbol-table effect of reading one whole instruction line.
pub open spec fn parse_effect(l: Seq<char>, m: Map<Seq<char>, Option<u32>>) -> Map<
    Seq<char>,
    Option<u32>,
> {
    let toks = split_spec(l, ' ', ',');
    match match_func_spec(toks[0]) {
        Some(p) => if p.1 is Special {
            m
        } else {
            bundle_effect(toks.skip(1), p.1, p.0, m)
        },
        None => m,
    }
}

/// Whether an instruction line can be read at all; this does not depend
/// on the symbol table.
pub open spec fn line_parses(l: Seq<char>) -> bool {
    let toks = split_spec(l, ' ', ',');
    match match_func_spec(toks[0]) {
        Some(p) => p.1 is Special || bundle_ok(toks.skip(1), p.1, p.0),
        None => false,
    }
}

/// The instruction a line yields, read under table `m1` and leaving table
/// `m2`.
pub open spec fn instr_parses(
    l: Seq<char>,
    m1: Map<Seq<char>, Option<u32>>,
    m2: Map<Seq<char>, Option<u32>>,
    instr: Instruction,
) -> bool {
    let toks = split_spec(l, ' ', ',');
    match match_func_spec(toks[0]) {
        Some(p) => {
            &&& instr.func == p.0
            &&& instr.itype == p.1
            &&& if p.1 is Special {
                &&& m2 == m1
                &&& instr.args == (ArgumentBundle {
                    rs: 0u32,
                    rt: 0u32,
                    rd: 0u32,
                    sham: 0u32,
                    imm: Tag::Imm(0, false),
                })
            } else {
                bundle_spec(toks.skip(1), p.1, p.0, m1, m2, instr.args)
            }
        },
        None => false,
    }
}

/// Which segment stream a line lands in, given the state before it.
pub open spec fn goes_to_code(st: WalkState, line: LineTag) -> bool {
    match line {
        LineTag::SectionStart(_, k) => k is Code,
        _ => st.is_code,
    }
}

/// One step of the walk.
pub open spec fn walk_step(st: WalkState, line: LineTag) -> WalkState {
    match line {
        LineTag::Processed(l) => WalkState {
            addr: (((st.addr + 4) % 0x1_0000_0000) as u32),
            n_code: if st.is_code {
                st.n_code + 1
            } else {
                st.n_code
            },
            n_data: if st.is_code {
                st.n_data
            } else {
                st.n_data + 1
            },
            map: if st.is_code {
                parse_effect(l@, st.map)
            } else {
                st.map
            },
            ..st
        },
        LineTag::Ignore => WalkState {
            n_code: if st.is_code {
                st.n_code + 1
            } else {
                st.n_code
            },
            n_data: if st.is_code {
                st.n_data
            } else {
                st.n_data + 1
            },
            ..st
        },
        LineTag::Tag(t) => WalkState {
            n_code: if st.is_code {
                st.n_code + 1
            } else {
                st.n_code
            },
            n_data: if st.is_code {
                st.n_data
            } else {
                st.n_data + 1
            },
            map: if st.is_code {
                st.map.insert(t@, Some(st.addr))
            } else {
                st.map
            },
            ..st
        },
        LineTag::SectionStart(a, k) => WalkState {
            addr: a,
            is_code: k is Code,
            code_base: if k is Code {
                a
            } else {
                st.code_base
            },
            data_base: if k is Code {
                st.data_base
            } else {
                a
            },
            n_code: if k is Code {
                st.n_code + 1
            } else {
                st.n_code
            },
            n_data: if k is Code {
                st.n_data
            } else {
                st.n_data + 1
            },
            map: st.map,
        },
    }
}

/// The walk's state after its first `k` lines.
pub open spec fn walk_states(lines: Seq<(String, LineTag)>, k: int, init: WalkState) -> WalkState
    decreases k,
{
    if k <= 0 {
        init
    } else {
        walk_step(walk_states(lines, k - 1, init), lines[k - 1].1)
    }
}

/// What the walk asks of its caller: no code label is defined twice.
pub open spec fn walk_wf(lines: Seq<(String, LineTag)>, st: WalkState) -> bool
    decreases lines.len(),
{
    if lines.len() == 0 {
        true
    } else {
        let ok = match lines[0].1 {
            LineTag::Tag(t) => st.is_code ==> (st.map.contains_key(t@) ==> st.map[t@] is None),
            _ => true,
        };
        ok && walk_wf(lines.skip(1), walk_step(st, lines[0].1))
    }
}

/// What the entry a line produced must hold, given the state before the
/// line: the line's text, its 1-based number, and — for an instruction
/// line in the code segment or a label line in the data segment — the
/// value read from it.
pub open spec fn entry_matches(
    entry: ((String, usize), Option<Instruction>),
    dentry: ((String, usize), Option<Data>),
    in_code: bool,
    line: (String, LineTag),
    k: int,
    st: WalkState,
) -> bool {
    if in_code {
        &&& entry.0.0@ == line.0@
        &&& entry.0.1 == k + 1
        &&& match line.1 {
            LineTag::Processed(l) => st.is_code && (entry.1 matches Some(instr) && instr_parses(
                l@,
                st.map,
                parse_effect(l@, st.map),
                instr,
            )),
            _ => entry.1 is None,
        }
    } else {
        &&& dentry.0.0@ == line.0@
        &&& dentry.0.1 == k + 1
        &&& match line.1 {
            LineTag::Tag(_) => !st.is_code && (dentry.1 matches Some(d) && (data_spec(
                lower_seq(line.0@),
            ) matches Some(m) && d.tagname@ == m.0 && d.dt == m.1 && d.contents@ == m.2)),
            _ => dentry.1 is None,
        }
    }
}

proof fn lemma_walk_counts_monotone(
    lines: Seq<(String, LineTag)>,
    init: WalkState,
    k1: int,
    k2: int,
)
    requires
        0 <= k1 <= k2,
    ensures
        walk_states(lines, k1, init).n_code <= walk_states(lines, k2, init).n_code,
        walk_states(lines, k1, init).n_data <= walk_states(lines, k2, init).n_data,
    decreases k2 - k1,
{
    if k1 < k2 {
        lemma_walk_counts_monotone(lines, init, k1, k2 - 1);
        assert(walk_states(lines, k2, init) == walk_step(
            walk_states(lines, k2 - 1, init),
            lines[k2 - 1].1,
        ));
    }
}

proof fn lemma_bundle_map_effect(
    toks: Seq<Seq<char>>,
    itype: InstructionType,
    func: u32,
    m1: Map<Seq<char>, Option<u32>>,
    m2: Map<Seq<char>, Option<u32>>,
    b: ArgumentBundle,
)
    requires
        bundle_spec(toks, itype, func, m1, m2, b),
    ensures
        m2 == bundle_effect(toks, itype, func, m1),
{
    match itype {
        InstructionType::I => {
            if func == opcodes::I_BGTZ || func == opcodes::I_BLEZ {
                assert(cand_outcome(toks[1], m1, m2, b.imm));
            } else if func == opcodes::I_BNE || func == opcodes::I_BEQ {
                assert(cand_outcome(toks[2], m1, m2, b.imm));
            }
        },
        InstructionType::J => {
            assert(cand_outcome(toks[0], m1, m2, b.imm));
        },
        _ => {},
    }
}

/// `addr + 4` on 32 bits, wrapping around zero.
fn add4_wrap(a: u32) -> (r: u32)
    ensures
        r == (((a + 4) % 0x1_0000_0000) as u32),
{
    if a <= 0xffff_fffb {
        a + 4
    } else {
        a - 0xffff_fffc
    }
}

/// Walks the classified lines once: assigns every address, switches
/// segments at each marker, records each code label at the current
/// address, reads instruction and data lines into their in-memory forms,
/// and splits the lines into the two segment streams. Yields the streams
/// and the two base addresses; the first unreadable line aborts with its
/// error.
pub fn lay_out(lines: &Vec<(String, LineTag)>, ctx: &mut TagContext) -> (r: Result<
    (Vec<((String, usize), Option<Instruction>)>, Vec<((String, usize), Option<Data>)>, u32, u32),
    SyntaxError,
>)
    requires
        old(ctx).wf(),
        walk_wf(lines@, init_walk(old(ctx)@)),
    ensures
        final(ctx).wf(),
        match r {
            Ok(p) => ({
                let fin = walk_states(lines@, lines@.len() as int, init_walk(old(ctx)@));
                &&& p.2 == fin.code_base
                &&& p.3 == fin.data_base
                &&& final(ctx)@ == fin.map
                &&& p.0@.len() == fin.n_code
                &&& p.1@.len() == fin.n_data
                &&& forall|k: int|
                    0 <= k < lines@.len() ==> ({
                        let st = #[trigger] walk_states(lines@, k, init_walk(old(ctx)@));
                        let in_code = goes_to_code(st, lines@[k].1);
                        entry_matches(
                            p.0@[if in_code {
                                st.n_code as int
                            } else {
                                0
                            }],
                            p.1@[if in_code {
                                0
                            } else {
                                st.n_data as int
                            }],
                            in_code,
                            lines@[k],
                            k,
                            st,
                        )
                    })
            }),
            Err(_) => exists|k: int|
                0 <= k < lines@.len() && ({
                    let st = #[trigger] walk_states(lines@, k, init_walk(old(ctx)@));
                    ||| (lines@[k].1 matches LineTag::Processed(l) && st.is_code && !line_parses(
                        l@,
                    ))
                    ||| (lines@[k].1 matches LineTag::Tag(_) && !st.is_code && data_spec(
                        lower_seq(lines@[k].0@),
                    ) is None)
                }),
        },
{
    let ghost init = init_walk(old(ctx)@);
    let mut instr_v: Vec<((String, usize), Option<Instruction>)> = Vec::new();
    let mut data_v: Vec<((String, usize), Option<Data>)> = Vec::new();
    let mut addr: u32 = 0;
    let mut is_code: bool = false;
    let mut code_base: u32 = 0;
    let mut data_base: u32 = 0;
    let n = lines.len();
    let mut i: usize = 0;
    proof {
        assert(walk_states(lines@, 0, init) == init);
        assert(lines@.skip(0) =~= lines@);
    }
    while i < n
        invariant
            i <= n,
            n == lines@.len(),
            init == init_walk(old(ctx)@),
            ctx.wf(),
            ({
                let st = walk_states(lines@, i as int, init);
                &&& addr == st.addr
                &&& is_code == st.is_code
                &&& code_base == st.code_base
                &&& data_base == st.data_base
                &&& instr_v@.len() == st.n_code
                &&& data_v@.len() == st.n_data
                &&& ctx@ == st.map
            }),
            walk_wf(lines@.skip(i as int), walk_states(lines@, i as int, init)),
            forall|k: int|
                0 <= k < i ==> ({
                    let st = #[trigger] walk_states(lines@, k, init);
                    let in_code = goes_to_code(st, lines@[k].1);
                    entry_matches(
                        instr_v@[if in_code {
                            st.n_code as int
                        } else {
                            0
                        }],
                        data_v@[if in_code {
                            0
                        } else {
                            st.n_data as int
                        }],
                        in_code,
                        lines@[k],
                        k,
                        st,
                    )
                }),
        decreases n - i,
    {
        let ghost st = walk_states(lines@, i as int, init);
        proof {
            assert(lines@.skip(i as int)[0] == lines@[i as int]);
            assert(lines@.skip(i as int).skip(1) =~= lines@.skip(i as int + 1));
            assert(walk_states(lines@, i as int + 1, init) == walk_step(st, lines@[i as int].1));
        }
        let item = &lines[i];
        let mut instr: Option<Instruction> = None;
        let mut data: Option<Data> = None;
        match &item.1 {
            LineTag::Processed(l) => {
                if is_code {
                    let parsed = match Instruction::from_line(l.as_str(), ctx) {
                        Ok(p) => p,
                        Err(e) => {
                            proof {
                                let st0 = walk_states(lines@, i as int, init_walk(old(ctx)@));
                                assert(st0 == st);
                                assert(lines@[i as int].1 matches LineTag::Processed(ll)
                                    && st0.is_code && !line_parses(ll@));
                            }
                            return Err(e);
                        },
                    };
                    proof {
                        let toks = split_spec(l@, ' ', ',');
                        let p = match_func_spec(toks[0])->Some_0;
                        if !(p.1 is Special) {
                            lemma_bundle_map_effect(
                                toks.skip(1),
                                p.1,
                                p.0,
                                st.map,
                                ctx@,
                                parsed.args,
                            );
                        }
                    }
                    instr = Some(parsed);
                }
                addr = add4_wrap(addr);
            },
            LineTag::Ignore => {},
            LineTag::Tag(tag) => {
                if !is_code {
                    // Data directives are read from the lower-cased line, as
                    // the preprocessor normalizes the whole source.
                    let lowered = ascii_lowercase(item.0.as_str());
                    let d = match Data::from(lowered.as_str()) {
                        Ok(d) => d,
                        Err(e) => {
                            proof {
                                let st0 = walk_states(lines@, i as int, init_walk(old(ctx)@));
                                assert(st0 == st);
                                assert(lines@[i as int].1 matches LineTag::Tag(_) && !st0.is_code
                                    && data_spec(lower_seq(lines@[i as int].0@)) is None);
                            }
                            return Err(e);
                        },
                    };
                    data = Some(d);
                } else {
                    log_addr(ctx, tag.clone(), addr);
                }
            },
            LineTag::SectionStart(a, kind) => {
                addr = *a;
                match kind {
                    Sections::Code => {
                        is_code = true;
                        code_base = *a;
                    },
                    Sections::Data => {
                        is_code = false;
                        data_base = *a;
                    },
                }
            },
        }
        let ghost old_ncode = instr_v@.len();
        let ghost old_ndata = data_v@.len();
        if is_code {
            instr_v.push(((item.0.clone(), i + 1), instr));
        } else {
            data_v.push(((item.0.clone(), i + 1), data));
        }
        proof {
            assert(goes_to_code(st, lines@[i as int].1) == is_code);
            assert forall|k: int| 0 <= k < i + 1 implies ({
                let stk = #[trigger] walk_states(lines@, k, init);
                let in_code = goes_to_code(stk, lines@[k].1);
                entry_matches(
                    instr_v@[if in_code {
                        stk.n_code as int
                    } else {
                        0
                    }],
                    data_v@[if in_code {
                        0
                    } else {
                        stk.n_data as int
                    }],
                    in_code,
                    lines@[k],
                    k,
                    stk,
                )
            }) by {
                let stk = walk_states(lines@, k, init);
                let in_code = goes_to_code(stk, lines@[k].1);
                if k < i {
                    assert(walk_states(lines@, k + 1, init) == walk_step(stk, lines@[k].1));
                    lemma_walk_counts_monotone(lines@, init, k + 1, i as int);
                    if in_code {
                        assert(stk.n_code < old_ncode);
                    } else {
                        assert(stk.n_data < old_ndata);
                    }
                } else {
                    assert(stk == st);
                }
            }
        }
        i += 1;
    }
    Ok((instr_v, data_v, code_base, data_base))
}

} // verus!
