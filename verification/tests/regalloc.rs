use std::collections::VecDeque;

use microc::error::ErrorKind;
use microc::regalloc::code_block::next_from_instructions;
use microc::regalloc::from_instructions;
use microc::regalloc::liveness_analysis::for_codeblock;
use microc::regalloc::reg_table::Entry;
use microc::regalloc::reg_table::Float;
use microc::regalloc::reg_table::RegTable;
use microc::regalloc::reg_table::Register;
use microc::regalloc::reg_table::Regular;
use microc::regalloc::LiveSet;
use microc::three_ac::operand::Type;
use microc::three_ac::operand::Variant as Kind;
use microc::three_ac::Bank;
use microc::three_ac::Instruction;
use microc::three_ac::Instructions;
use microc::three_ac::Label;
use microc::three_ac::Operand;
use microc::three_ac::Variant;

fn local(offset: i32) -> Operand {
    Operand { variant: Kind::Local(offset), otype: Type::T }
}

fn local_f(offset: i32) -> Operand {
    Operand { variant: Kind::Local(offset), otype: Type::F }
}

fn global(address: i32) -> Operand {
    Operand { variant: Kind::Global(address), otype: Type::T }
}

fn temp(n: u32) -> Operand {
    Operand { variant: Kind::Temp(n), otype: Type::T }
}

fn temp_f(n: u32) -> Operand {
    Operand { variant: Kind::TempFloat(n), otype: Type::F }
}

fn x(n: u32) -> Register {
    Register::X(Regular(n))
}

fn f(n: u32) -> Register {
    Register::F(Float(n))
}

fn live(ops: &[Operand]) -> LiveSet {
    let mut s = LiveSet::new();
    for op in ops {
        s.insert(*op);
    }
    s
}

fn stream(list: Vec<Instruction>) -> Instructions {
    Instructions { instructions: VecDeque::from(list), tmp: None }
}

#[test]
fn register_count_below_eight_is_refused() {
    assert_eq!(RegTable::new(7).unwrap_err().get_kind(), ErrorKind::RegAlloc);
    assert_eq!(RegTable::new(0).unwrap_err().get_kind(), ErrorKind::RegAlloc);
    assert!(RegTable::new(8).is_ok());
}

#[test]
fn registers_are_named_by_bank_and_number() {
    assert_eq!(x(4).to_text(), "x4");
    assert_eq!(f(12).to_text(), "f12");
    let mut s = String::from("MV ");
    x(31).push_to(&mut s);
    assert_eq!(s, "MV x31");
}

#[test]
fn integer_bank_skips_the_frame_pointer() {
    let mut t = RegTable::new(10).unwrap();
    let none = live(&[]);
    let mut code = String::new();
    let mut got = Vec::new();
    for n in 1..=5 {
        let r = t.allocate(&temp(n), &none, &mut code);
        t.mark_dirty(&r, &mut code);
        got.push(r);
    }
    assert_eq!(got, vec![x(4), x(5), x(6), x(7), x(9)]);
    let mut got = Vec::new();
    for n in 1..=9 {
        let r = t.allocate(&temp_f(n), &none, &mut code);
        t.mark_dirty(&r, &mut code);
        got.push(r);
    }
    assert_eq!(got, (1..=9).map(f).collect::<Vec<_>>());
    assert_eq!(code, "");
}

#[test]
fn allocation_prefers_hit_then_empty_then_clean_then_first() {
    let mut t = RegTable::new(8).unwrap();
    let all = live(&[local(-12), temp(1), temp(2), temp(3), temp(4)]);
    let mut code = String::new();
    // an empty register
    assert_eq!(t.allocate(&temp(1), &all, &mut code), x(4));
    assert_eq!(t.allocate(&temp(2), &all, &mut code), x(5));
    // a register that holds the operand already
    assert_eq!(t.allocate(&temp(2), &all, &mut code), x(5));
    t.mark_dirty(&x(5), &mut code);
    let r = t.allocate(&temp(3), &all, &mut code);
    t.mark_dirty(&r, &mut code);
    let r = t.allocate(&temp(4), &all, &mut code);
    t.mark_dirty(&r, &mut code);
    assert_eq!(r, x(7));
    // no register is empty: the first that is not newer than memory
    assert_eq!(t.allocate(&local(-12), &all, &mut code), x(4));
    t.mark_dirty(&x(4), &mut code);
    assert_eq!(code, "");
    // every register is newer than memory: the first, which is stored
    assert_eq!(t.allocate(&local(-16), &all, &mut code), x(4));
    assert_eq!(code, "SW x4, -12(fp)\n");
}

#[test]
fn ensure_loads_what_no_register_holds() {
    let mut t = RegTable::new(8).unwrap();
    let none = live(&[]);
    let mut code = String::new();
    assert_eq!(t.ensure(&local(-4), &none, &mut code), x(4));
    assert_eq!(t.ensure(&global(0x20000004), &none, &mut code), x(5));
    assert_eq!(t.ensure(&local(-4), &none, &mut code), x(4));
    assert_eq!(t.ensure(&local_f(16), &none, &mut code), f(1));
    let string = Operand { variant: Kind::Str(0x10000008), otype: Type::T };
    assert_eq!(t.ensure(&string, &none, &mut code), x(3));
    assert_eq!(
        code,
        "LW x4, -4(fp)\nLA x3, 0x20000004\nLW x5, 0(x3)\nFLW f1, 16(fp)\nLA x3, 0x10000008\n"
    );
    // a temporary that no register holds is given one, and read from register 99
    let mut code = String::new();
    assert_eq!(t.ensure(&temp(1), &none, &mut code), x(99));
    assert_eq!(t.ensure(&temp(1), &none, &mut code), x(6));
    assert_eq!(t.ensure(&temp_f(1), &none, &mut code), f(99));
    assert_eq!(code, "");
}

#[test]
fn free_stores_what_is_dirty_and_live() {
    let mut t = RegTable::new(8).unwrap();
    let mut code = String::new();
    let both = live(&[local(-4), global(0x20000000)]);
    let r = t.allocate(&local(-4), &both, &mut code);
    t.mark_dirty(&r, &mut code);
    t.free(&r, &live(&[]), &mut code);
    assert_eq!(code, "");
    let r = t.allocate(&global(0x20000000), &both, &mut code);
    t.mark_dirty(&r, &mut code);
    t.free(&r, &both, &mut code);
    assert_eq!(code, "LA x3, 0x20000000\nSW x4, 0(x3)\n");
    // freed: nothing is stored again
    t.free(&r, &both, &mut code);
    t.free(&x(3), &both, &mut code);
    t.free(&x(8), &both, &mut code);
    t.free(&f(0), &both, &mut code);
    assert_eq!(code, "LA x3, 0x20000000\nSW x4, 0(x3)\n");
    let mut code = String::new();
    let r = t.allocate(&local_f(-8), &live(&[local_f(-8)]), &mut code);
    t.mark_dirty(&r, &mut code);
    t.free(&r, &live(&[local_f(-8)]), &mut code);
    assert_eq!(code, "FSW f1, -8(fp)\n");
}

#[test]
fn write_spills_every_other_register_that_holds_memory() {
    let mut t = RegTable::new(8).unwrap();
    let none = live(&[]);
    let mut code = String::new();
    let a = t.allocate(&local(-4), &none, &mut code);
    t.mark_dirty(&a, &mut code);
    assert_eq!(code, "");
    let b = t.ensure(&global(0x20000000), &none, &mut code);
    let c = t.allocate(&temp(1), &none, &mut code);
    let mut code = String::new();
    t.mark_dirty(&c, &mut code);
    // the dirty local is stored; the clean global is dropped without a store
    assert_eq!(code, "SW x4, -4(fp)\n");
    let mut code = String::new();
    assert_eq!(t.ensure(&global(0x20000000), &none, &mut code), x(4));
    assert_eq!(b, x(5));
    assert_eq!(code, "LA x3, 0x20000000\nLW x4, 0(x3)\n");
}

#[test]
fn full_spill_leaves_no_dirty_register() {
    let mut t = RegTable::new(8).unwrap();
    let none = live(&[]);
    let mut code = String::new();
    let r = t.allocate(&temp(1), &none, &mut code);
    t.mark_dirty(&r, &mut code);
    let r = t.allocate(&local_f(-8), &none, &mut code);
    t.mark_dirty(&r, &mut code);
    let r = t.allocate(&global(0x20000008), &none, &mut code);
    t.mark_dirty(&r, &mut code);
    // the write to the global stored the float local
    assert_eq!(code, "FSW f1, -8(fp)\n");
    assert_eq!(t.spill_registers(), "LA x3, 0x20000008\nSW x5, 0(x3)\n");
    // nothing is left to store, and every register is empty
    assert_eq!(t.spill_registers(), "");
    let mut code = String::new();
    assert_eq!(t.allocate(&temp(2), &none, &mut code), x(4));
}

#[test]
fn register_entries() {
    let mut e = Entry::new_null();
    assert!(e.is_null());
    assert!(!e.dirty);
    e.update(local(-4));
    assert!(!e.is_null());
    e.dirty();
    assert!(e.dirty);
    assert_eq!(e.spill_regular_entry(Regular(5)), "SW x5, -4(fp)\n");
    assert_eq!(e.spill_float_entry(Float(2)), "FSW f2, -4(fp)\n");
    e.update(global(0x20000000));
    assert!(!e.dirty);
    assert_eq!(e.spill_regular_entry(Regular(5)), "LA x3, 0x20000000\nSW x5, 0(x3)\n");
    e.update(temp(1));
    assert_eq!(e.spill_regular_entry(Regular(5)), "");
    e.reset();
    assert!(e.is_null());
}

#[test]
fn live_sets() {
    let mut s = LiveSet::new();
    assert!(!s.contains(&local(-4)));
    local(-4).insert_to_set(&mut s);
    local(-4).insert_to_set(&mut s);
    temp(1).insert_to_set_if_a_var(&mut s);
    Operand::new_null().insert_to_set(&mut s);
    assert!(s.contains(&local(-4)));
    assert!(!s.contains(&temp(1)));
    assert!(!s.contains(&Operand::new_null()));
    temp(1).insert_to_set(&mut s);
    global(4).insert_to_set_if_a_var(&mut s);
    let copy = s.clone();
    local(-4).remove_from_set(&mut s);
    Operand::new_null().remove_from_set(&mut s);
    assert!(!s.contains(&local(-4)));
    assert!(s.contains(&temp(1)));
    assert!(s.contains(&global(4)));
    assert!(copy.contains(&local(-4)));
    assert!(!local_f(-4).is_spillable() || !s.contains(&local_f(-4)));
}

#[test]
fn blocks_end_at_labels_and_after_terminators() {
    let mut q = VecDeque::from(vec![
        Instruction::label(Label::FunctionHead(0)),
        Instruction::load(Bank::T, local(-4), "1".to_string()),
        Instruction::label(Label::BlockJump(1)),
        Instruction::assign(Bank::T, global(8), temp(1)),
        Instruction::jump(Label::BlockJump(1)),
        Instruction::put(Bank::T, temp(2), false),
        Instruction::ret(),
        Instruction::save(Bank::T, local(12)),
    ]);
    let (block, seed) = next_from_instructions(&mut q).unwrap();
    assert_eq!(
        block,
        vec![
            Instruction::label(Label::FunctionHead(0)),
            Instruction::load(Bank::T, local(-4), "1".to_string()),
            Instruction::spill_registers(),
        ]
    );
    assert!(seed.contains(&local(-4)));
    assert_eq!(q.len(), 6);
    let (block, seed) = next_from_instructions(&mut q).unwrap();
    assert_eq!(
        block,
        vec![
            Instruction::label(Label::BlockJump(1)),
            Instruction::assign(Bank::T, global(8), temp(1)),
            Instruction::spill_registers(),
            Instruction::jump(Label::BlockJump(1)),
        ]
    );
    assert!(seed.contains(&global(8)));
    assert!(!seed.contains(&temp(1)));
    assert!(!seed.contains(&local(-4)));
    let (block, seed) = next_from_instructions(&mut q).unwrap();
    assert_eq!(
        block,
        vec![
            Instruction::put(Bank::T, temp(2), false),
            Instruction::spill_registers(),
            Instruction::ret(),
        ]
    );
    assert!(!seed.contains(&temp(2)));
    let (block, seed) = next_from_instructions(&mut q).unwrap();
    assert_eq!(block, vec![Instruction::save(Bank::T, local(12))]);
    assert!(seed.contains(&local(12)));
    assert!(next_from_instructions(&mut q).is_none());
}

#[test]
fn comparisons_calls_and_headers_end_their_block() {
    let mut q = VecDeque::from(vec![
        Instruction::header_text(Label::FunctionHead(0)),
        Instruction::call(Label::FunctionHead(1), vec![local(-4)], Bank::T, temp(1)),
        Instruction {
            variant: Variant::Less(Label::BlockBranch(1)),
            set: Bank::T,
            opdt: Operand::new_null(),
            opm: temp(1),
            opn: local(-8),
        },
        Instruction::header_strings(String::new()),
    ]);
    let mut sizes = Vec::new();
    let mut seeds = Vec::new();
    while let Some((block, seed)) = next_from_instructions(&mut q) {
        sizes.push(block.len());
        seeds.push((seed.contains(&local(-4)), seed.contains(&local(-8))));
    }
    assert_eq!(sizes, vec![1, 1, 1, 1]);
    // the arguments of a call do not seed the set; its operand slots do
    assert_eq!(seeds, vec![(false, false), (false, false), (false, true), (false, false)]);
}

#[test]
fn liveness_walks_a_block_backwards() {
    let a = local(-4);
    let b = local(-8);
    let block = vec![
        Instruction::load(Bank::T, temp(1), "1".to_string()),
        Instruction {
            variant: Variant::Plus,
            set: Bank::T,
            opdt: temp(2),
            opm: a,
            opn: temp(1),
        },
        Instruction::assign(Bank::T, b, temp(2)),
        Instruction::call(Label::FunctionHead(0), vec![b, a], Bank::T, temp(3)),
        Instruction::put(Bank::T, temp(3), false),
    ];
    let mut set = live(&[b]);
    let analyzed = for_codeblock(block, &mut set);
    let after: Vec<Vec<bool>> = analyzed
        .iter()
        .map(|(_, l)| [a, b, temp(1), temp(2), temp(3)].iter().map(|op| l.contains(op)).collect())
        .collect();
    assert_eq!(
        after,
        vec![
            // a      b      t1     t2     t3
            vec![true, false, true, false, false],
            vec![true, false, false, true, false],
            vec![true, true, false, false, false],
            vec![false, true, false, false, true],
            vec![false, true, false, false, false],
        ]
    );
    // what is live where the block starts
    assert!(set.contains(&a));
    assert!(!set.contains(&b));
    assert!(!set.contains(&temp(1)));
}

#[test]
fn reference_of_a_global_is_an_allocator_error() {
    let mut t = RegTable::new(8).unwrap();
    let none = live(&[]);
    let ok = Instruction::reference(temp(1), local(-4));
    assert_eq!(ok.to_code(&none, &mut t).unwrap(), "ADDI x4, fp, -4\n");
    let bad = Instruction::reference(temp(2), global(0x20000000));
    assert_eq!(bad.to_code(&none, &mut t).unwrap_err().get_kind(), ErrorKind::RegAlloc);
    let program = stream(vec![bad]);
    assert_eq!(from_instructions(program, 8).unwrap_err().get_kind(), ErrorKind::RegAlloc);
}

#[test]
fn each_instruction_has_its_encoding() {
    let mut t = RegTable::new(8).unwrap();
    let none = live(&[]);
    let code = |i: Instruction, t: &mut RegTable| i.to_code(&live(&[]), t).unwrap();
    assert_eq!(code(Instruction::get(Bank::T, temp(1)), &mut t), "GETI x4\n");
    assert_eq!(code(Instruction::get(Bank::F, temp_f(1)), &mut t), "GETF f1\n");
    assert_eq!(code(Instruction::put(Bank::T, temp(1), false), &mut t), "PUTI x4\n");
    assert_eq!(code(Instruction::put(Bank::F, temp_f(1), false), &mut t), "PUTF f1\n");
    assert_eq!(code(Instruction::malloc(temp(2), local(-4)), &mut t), "LW x4, -4(fp)\nMALLOC x4, x4\n");
    assert_eq!(code(Instruction::free(temp(2)), &mut t), "FREE x4\n");
    assert_eq!(code(Instruction::negate(Bank::T, temp(3), local(-4)), &mut t), "LW x4, -4(fp)\nNEG x4, x4\n");
    t.spill_registers();
    assert_eq!(
        code(Instruction::negate(Bank::F, temp_f(3), local_f(-4)), &mut t),
        "FLW f1, -4(fp)\nFNEG.S f1, f1\n"
    );
    t.spill_registers();
    assert_eq!(
        code(Instruction::cast(Bank::T, temp(4), local_f(-4)), &mut t),
        "FLW f1, -4(fp)\nIMOVF.S x4, f1\n"
    );
    t.spill_registers();
    assert_eq!(
        code(Instruction::dereference(Bank::F, temp_f(4), local(-4)), &mut t),
        "LW x4, -4(fp)\nFLW f1, 0(x4)\n"
    );
    t.spill_registers();
    assert_eq!(
        code(Instruction::address(temp(5), local(-4)), &mut t),
        "LW x4, -4(fp)\nLW x4, 0(x4)\n"
    );
    t.spill_registers();
    assert_eq!(code(Instruction::save(Bank::F, local_f(-4)), &mut t), "FLW f1, -4(fp)\nFSW f1, 8(fp)\n");
    t.spill_registers();
    assert_eq!(code(Instruction::alloc_frame(-12), &mut t), "ADDI sp, sp, -12\n");
    assert_eq!(code(Instruction::jump(Label::BlockJump(5)), &mut t), "J jump_5\n");
    assert_eq!(code(Instruction::label(Label::BlockBranch(5)), &mut t), "branch_5:\n");
    assert_eq!(code(Instruction::spill_registers(), &mut t), "");
    let string = Operand { variant: Kind::Str(0x10000000), otype: Type::T };
    assert_eq!(code(Instruction::put(Bank::T, string, true), &mut t), "LA x3, 0x10000000\nPUTS x3\n");
    for (variant, mnemonic) in [
        (Variant::Plus, "ADD"),
        (Variant::Minus, "SUB"),
        (Variant::Times, "MUL"),
        (Variant::Divide, "DIV"),
    ] {
        let mut t = RegTable::new(8).unwrap();
        let i = Instruction { variant, set: Bank::T, opdt: temp(1), opm: local(-4), opn: local(-8) };
        assert_eq!(
            i.to_code(&none, &mut t).unwrap(),
            format!("LW x4, -4(fp)\nLW x5, -8(fp)\n{mnemonic} x4, x4, x5\n")
        );
    }
    for (variant, mnemonic) in [
        (Variant::Plus, "FADD.S"),
        (Variant::Minus, "FSUB.S"),
        (Variant::Times, "FMUL.S"),
        (Variant::Divide, "FDIV.S"),
    ] {
        let mut t = RegTable::new(8).unwrap();
        let i = Instruction {
            variant,
            set: Bank::F,
            opdt: temp_f(1),
            opm: local_f(-4),
            opn: local_f(-8),
        };
        assert_eq!(
            i.to_code(&none, &mut t).unwrap(),
            format!("FLW f1, -4(fp)\nFLW f2, -8(fp)\n{mnemonic} f1, f1, f2\n")
        );
    }
}

#[test]
fn comparisons_branch_on_the_negated_condition() {
    let l = Label::BlockBranch(2);
    for (variant, mnemonic) in [
        (Variant::Equal(l), "BNE"),
        (Variant::NotEqual(l), "BEQ"),
        (Variant::Less(l), "BGE"),
        (Variant::LessEqual(l), "BGT"),
        (Variant::Greater(l), "BLE"),
        (Variant::GreaterEqual(l), "BLT"),
    ] {
        let mut t = RegTable::new(8).unwrap();
        let i = Instruction {
            variant,
            set: Bank::T,
            opdt: Operand::new_null(),
            opm: local(-4),
            opn: local(-8),
        };
        assert_eq!(
            i.to_code(&live(&[]), &mut t).unwrap(),
            format!("LW x4, -4(fp)\nLW x5, -8(fp)\n{mnemonic} x4, x5, branch_2\n")
        );
    }
    for (variant, compare, branch) in [
        (Variant::Equal(l), "FEQ.S", "BEQ"),
        (Variant::NotEqual(l), "FEQ.S", "BNE"),
        (Variant::Less(l), "FLT.S", "BEQ"),
        (Variant::LessEqual(l), "FLE.S", "BEQ"),
        (Variant::Greater(l), "FLE.S", "BNE"),
        (Variant::GreaterEqual(l), "FLT.S", "BNE"),
    ] {
        let mut t = RegTable::new(8).unwrap();
        let i = Instruction {
            variant,
            set: Bank::F,
            opdt: temp(1),
            opm: local_f(-4),
            opn: local_f(-8),
        };
        assert_eq!(
            i.to_code(&live(&[]), &mut t).unwrap(),
            format!(
                "FLW f1, -4(fp)\nFLW f2, -8(fp)\n{compare} x4, f1, f2\n{branch} x4, x0, branch_2\n"
            )
        );
    }
}

#[test]
fn call_without_arguments_or_result() {
    let mut t = RegTable::new(8).unwrap();
    let i = Instruction::call(Label::FunctionHead(3), vec![], Bank::T, Operand::new_null());
    assert_eq!(
        i.to_code(&live(&[]), &mut t).unwrap(),
        "ADDI sp, sp, -8\nSW ra, 0(sp)\nJR func_3\nLW ra, 0(sp)\nADDI sp, sp, 8\n"
    );
    let i = Instruction::call(
        Label::FunctionHead(3),
        vec![local(-4), local_f(-8)],
        Bank::F,
        temp_f(1),
    );
    assert_eq!(
        i.to_code(&live(&[]), &mut t).unwrap(),
        "ADDI sp, sp, -16\nSW ra, 0(sp)\nLW x4, -4(fp)\nSW x4, 8(sp)\nFLW f1, -8(fp)\n\
         FSW f1, 12(sp)\nJR func_3\nLW ra, 0(sp)\nFLW f1, 4(sp)\nADDI sp, sp, 16\n"
    );
}

#[test]
fn listing_of_the_register_file() {
    let mut t = RegTable::new(8).unwrap();
    assert_eq!(t.to_text(), "");
    let none = live(&[]);
    let mut code = String::new();
    t.allocate(&temp(1), &none, &mut code);
    t.allocate(&local(-4), &none, &mut code);
    t.allocate(&local_f(-8), &none, &mut code);
    assert_eq!(t.to_text(), "x4: $T<1>\nx5: L<-4>\nf1: L<-8>\n");
}

#[test]
fn blocks_of_a_program_seed_only_variables() {
    let mut q = VecDeque::from(vec![
        Instruction::load(Bank::T, temp(1), "1".to_string()),
        Instruction {
            variant: Variant::Plus,
            set: Bank::T,
            opdt: temp(2),
            opm: local(-4),
            opn: temp(1),
        },
        Instruction::assign(Bank::T, global(0x20000000), temp(2)),
        Instruction::put(Bank::F, temp_f(1), false),
    ]);
    let (block, seed) = next_from_instructions(&mut q).unwrap();
    assert_eq!(block.len(), 4);
    for op in [temp(1), temp(2), temp_f(1), Operand::new_null()] {
        assert!(!seed.contains(&op));
    }
    assert!(seed.contains(&local(-4)));
    assert!(seed.contains(&global(0x20000000)));
}

#[test]
fn empty_stream_has_no_assembly() {
    assert_eq!(from_instructions(stream(vec![]), 8).unwrap(), "");
    assert_eq!(from_instructions(stream(vec![]), 7).unwrap_err().get_kind(), ErrorKind::RegAlloc);
    let err = RegTable::new(3).unwrap_err();
    assert_eq!(err.exit_code(), 1);
    assert!(!err.message().is_empty());
}
