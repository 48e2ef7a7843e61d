//! From a typed syntax tree and its symbol table to assembly.

use crate::ast::node::NodeView;
use crate::ast::Node;
use crate::error::outcome;
use crate::error::Error;
use crate::error::ErrorKind;
use crate::regalloc;
use crate::regalloc::allocate::assembly;
use crate::symtable::object::SymTableView;
use crate::symtable::SymTable;
use crate::three_ac::instruction::InstructionView;
use crate::three_ac::instruction::VariantView;
use crate::three_ac::instructions::lower;
use crate::three_ac::optimize::peephole;
use crate::three_ac::Count;
use crate::three_ac::Instructions;
use crate::three_ac::Label;
use vstd::prelude::*;

verus! {

/// The instructions of a program: its tree lowered with counters that
/// start at zero, between the text header, which enters at `main`, and the
/// string table, after the peephole pass. The table is left as lowering
/// leaves it.
pub open spec fn instructions_of(ast: NodeView, t: SymTableView) -> (
    SymTableView,
    Result<Seq<InstructionView>, ErrorKind>,
) {
    let l = lower(ast, Count { regular: 0, float: 0, label: 0 }, t);
    match l.result {
        Err(e) => (l.table, Err(e)),
        Ok(v) => match l.table.get_symbol("main"@) {
            Err(e) => (l.table, Err(e)),
            Ok(main) => (
                l.table,
                Ok(
                    peephole(
                        (seq![
                            InstructionView::bare(
                                VariantView::HeaderText(Label::FunctionHead(main.address())),
                            ),
                        ] + v.instructions).push(
                            InstructionView::bare(
                                VariantView::HeaderStrings(l.table.strings_in_asm()),
                            ),
                        ),
                    ),
                ),
            ),
        },
    }
}

/// The assembly of a program for a register count.
pub open spec fn generated(ast: NodeView, t: SymTableView, reg_count: u32) -> Result<
    Seq<char>,
    ErrorKind,
> {
    match instructions_of(ast, t).1 {
        Err(e) => Err(e),
        Ok(s) => assembly(s, reg_count),
    }
}

/// Writes the assembly of a program.
pub fn generate_code(ast: Node, symtable: SymTable, reg_count: u32) -> (r: Result<String, Error>)
    requires
        symtable.wf(),
    ensures
        outcome(r) == generated(ast@, symtable@, reg_count),
{
    let mut symtable = symtable;
    let instructions = match get_instructions(&ast, &mut symtable) {
        Ok(i) => i,
        Err(e) => {
            return Err(e);
        },
    };
    regalloc::from_instructions(instructions, reg_count)
}

/// Lowers a program to its instructions.
pub fn get_instructions(ast: &Node, symtable: &mut SymTable) -> (r: Result<Instructions, Error>)
    requires
        old(symtable).wf(),
    ensures
        final(symtable).wf(),
        final(symtable)@ == instructions_of(ast@, old(symtable)@).0,
        match r {
            Ok(i) => instructions_of(ast@, old(symtable)@).1 == Ok::<
                Seq<InstructionView>,
                ErrorKind,
            >(i@.instructions) && i@.tmp is None,
            Err(e) => instructions_of(ast@, old(symtable)@).1 == Err::<
                Seq<InstructionView>,
                ErrorKind,
            >(e.kind()),
        },
{
    let mut count = Count { regular: 0, float: 0, label: 0 };
    let lowered = match Instructions::from_ast(ast, &mut count, symtable) {
        Ok(i) => i,
        Err(e) => {
            return Err(e);
        },
    };
    let main = match symtable.get_symbol(&String::from_str("main")) {
        Ok(s) => s,
        Err(e) => {
            return Err(e);
        },
    };
    let strings = symtable.strings_in_asm();
    Ok(lowered.add_headers(main.address(), strings).optimize())
}

/// The instructions of a program end with the string table of its symbol
/// table, which lowering leaves as it was.
pub proof fn lemma_strings_header(ast: NodeView, t: SymTableView)
    ensures
        instructions_of(ast, t).1 matches Ok(s) ==> s.len() > 0 && s.last()
            == InstructionView::bare(VariantView::HeaderStrings(t.strings_in_asm())),
{
    let l = lower(ast, Count { regular: 0, float: 0, label: 0 }, t);
    crate::three_ac::laws::lemma_lower_scopes(ast, Count { regular: 0, float: 0, label: 0 }, t);
    match instructions_of(ast, t).1 {
        Ok(s) => {
            let v = l.result->Ok_0;
            let main = l.table.get_symbol("main"@)->Ok_0;
            let all = (seq![
                InstructionView::bare(VariantView::HeaderText(Label::FunctionHead(main.address()))),
            ] + v.instructions).push(
                InstructionView::bare(VariantView::HeaderStrings(l.table.strings_in_asm())),
            );
            crate::three_ac::optimize::lemma_scan_last(all[0], all, 1);
        },
        Err(_) => {},
    }
}

/// A program that declares no string constant has an empty string table
/// at the end of its instructions.
pub proof fn lemma_no_strings_header(pairs: Seq<crate::parser::Pair>)
    requires
        crate::parser::no_string_items(pairs, 0),
    ensures
        crate::parser::program_of(pairs).1 matches Ok(ast) ==> (instructions_of(
            ast,
            crate::parser::program_of(pairs).0,
        ).1 matches Ok(s) ==> s.len() > 0 && s.last() == InstructionView::bare(
            VariantView::HeaderStrings(Seq::empty()),
        )),
{
    crate::parser::lemma_program_without_strings(pairs);
    match crate::parser::program_of(pairs).1 {
        Ok(ast) => {
            lemma_strings_header(ast, crate::parser::program_of(pairs).0);
        },
        Err(_) => {},
    }
}

} // verus!
