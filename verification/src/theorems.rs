//! What holds of every program: the two passes agree on every address, the
//! image is as long as the program is wide, and a name resolves to what was
//! defined for it, wherever the reference stands.

use vstd::prelude::*;
use crate::assembler::spec_assemble;
use crate::emitter::{
    lemma_emission_failure_stays, spec_element_bytes, spec_emission, SpecEmission,
};
use crate::encoder::{
    spec_displacement, spec_encode, spec_first_symbol, spec_operand_bytes, spec_resolve,
    spec_resolve_instruction, spec_resolve_operands, spec_word_bytes,
};
use crate::error::SpecError;
use crate::image::{spec_padding, PAD_BYTE};
use crate::instructions::{
    InstructionOrConstant, JmpVariant, NamedInstruction, SpecCommand, SpecElement,
    SpecInstruction, SpecTarget,
};
use crate::layout::{spec_address_after, spec_size};
use crate::symbols::{
    lemma_layout_failure_stays, spec_layout, spec_symbols, SpecLayout, SpecSymbols,
};

verus! {

/// An element is well formed where it is no instruction, or an instruction
/// with as many operands as its kind takes.
pub open spec fn spec_element_wf(element: SpecElement) -> bool {
    match element {
        SpecElement::Instruction(instruction) => instruction.wf(),
        _ => true,
    }
}

/// A program is well formed where each of its elements is.
pub open spec fn spec_program_wf(elements: Seq<SpecElement>) -> bool {
    forall|i: int| 0 <= i < elements.len() ==> spec_element_wf(#[trigger] elements[i])
}

/// Every executable program is well formed.
pub proof fn lemma_program_wf(elements: Vec<InstructionOrConstant>)
    ensures
        spec_program_wf(elements.deep_view()),
{
    assert forall|i: int| 0 <= i < elements.deep_view().len() implies spec_element_wf(
        #[trigger] elements.deep_view()[i],
    ) by {
        match elements@[i] {
            InstructionOrConstant::Instruction(instruction) => {
                instruction.lemma_view_wf();
            },
            _ => {},
        }
    }
}

/// Each operand takes one word.
pub proof fn lemma_operand_bytes_length(operands: Seq<SpecTarget>)
    ensures
        spec_operand_bytes(operands).len() == 4 * operands.len(),
    decreases operands.len(),
{
    if operands.len() > 0 {
        lemma_operand_bytes_length(operands.drop_last());
    }
}

/// Resolution keeps the number of operands and leaves no name behind.
pub proof fn lemma_resolved_operands_are_concrete(
    symbols: SpecSymbols,
    scope: Option<Seq<char>>,
    variant: JmpVariant,
    next: u32,
    operands: Seq<SpecTarget>,
)
    ensures
        spec_resolve_operands(symbols, scope, variant, next, operands) matches Ok(resolved) ==> {
            &&& resolved.len() == operands.len()
            &&& spec_first_symbol(resolved) is None
        },
    decreases operands.len(),
{
    if operands.len() > 0 {
        lemma_resolved_operands_are_concrete(symbols, scope, variant, next, operands.drop_last());
        match spec_resolve_operands(symbols, scope, variant, next, operands) {
            Ok(resolved) => {
                assert(resolved.drop_last() == spec_resolve_operands(
                    symbols,
                    scope,
                    variant,
                    next,
                    operands.drop_last(),
                )->Ok_0);
            },
            Err(_) => {},
        }
    }
}

/// A resolved instruction can be encoded, and its encoding is as wide as
/// its kind says.
pub proof fn lemma_resolved_instruction_encodes(
    symbols: SpecSymbols,
    scope: Option<Seq<char>>,
    next: u32,
    instruction: SpecInstruction,
)
    requires
        instruction.wf(),
    ensures
        spec_resolve_instruction(symbols, scope, next, instruction) matches Ok(resolved) ==> {
            &&& spec_encode(resolved) is Ok
            &&& spec_encode(resolved)->Ok_0.len() == instruction.kind.spec_width()
        },
{
    lemma_resolved_operands_are_concrete(
        symbols,
        scope,
        instruction.variant,
        next,
        instruction.operands,
    );
    match spec_resolve_instruction(symbols, scope, next, instruction) {
        Ok(resolved) => {
            lemma_operand_bytes_length(resolved.operands);
        },
        Err(_) => {},
    }
}

/// In one step the second pass writes as many bytes as the cursor moves.
pub proof fn lemma_step_writes_what_the_cursor_moves(
    symbols: SpecSymbols,
    emission: SpecEmission,
    element: SpecElement,
)
    requires
        spec_element_wf(element),
    ensures
        emission.step(symbols, element) matches Ok(after) ==> after.image.len()
            - emission.image.len() == after.cursor - emission.cursor,
{
    match element {
        SpecElement::Instruction(instruction) => {
            match spec_address_after(emission.cursor, element) {
                Ok(next) => {
                    lemma_resolved_instruction_encodes(symbols, emission.scope, next, instruction);
                },
                Err(_) => {},
            }
        },
        _ => {},
    }
}

/// The two passes walk in step. After the same elements they stand at the
/// same address under the same label, and the image written so far ends at
/// that address.
pub proof fn lemma_passes_agree(symbols: SpecSymbols, elements: Seq<SpecElement>)
    requires
        spec_program_wf(elements),
    ensures
        (spec_layout(elements), spec_emission(symbols, elements)) matches (
            Ok(layout),
            Ok(emission),
        ) ==> {
            &&& emission.cursor == layout.cursor
            &&& emission.scope == layout.scope
            &&& emission.image.len() == emission.cursor
        },
    decreases elements.len(),
{
    if elements.len() > 0 {
        let before = elements.drop_last();
        assert(spec_program_wf(before)) by {
            assert forall|i: int| 0 <= i < before.len() implies spec_element_wf(
                #[trigger] before[i],
            ) by {
                assert(before[i] == elements[i]);
            }
        }
        lemma_passes_agree(symbols, before);
        match spec_emission(symbols, before) {
            Ok(emission) => {
                assert(spec_element_wf(elements[elements.len() - 1]));
                lemma_step_writes_what_the_cursor_moves(symbols, emission, elements.last());
            },
            Err(_) => {},
        }
    }
}

/// Where the first pass gets through a program, the second never fails on
/// an address: it can fail on an unresolved name only.
pub proof fn lemma_second_pass_fails_on_names_only(symbols: SpecSymbols, elements: Seq<SpecElement>)
    requires
        spec_program_wf(elements),
        spec_layout(elements) is Ok,
    ensures
        spec_emission(symbols, elements) matches Err(e) ==> e is UnresolvedSymbol,
    decreases elements.len(),
{
    if elements.len() > 0 {
        let before = elements.drop_last();
        assert(spec_program_wf(before)) by {
            assert forall|i: int| 0 <= i < before.len() implies spec_element_wf(
                #[trigger] before[i],
            ) by {
                assert(before[i] == elements[i]);
            }
        }
        lemma_second_pass_fails_on_names_only(symbols, before);
        lemma_passes_agree(symbols, before);
        match spec_emission(symbols, before) {
            Ok(emission) => {
                assert(spec_element_wf(elements[elements.len() - 1]));
                match elements.last() {
                    SpecElement::Instruction(instruction) => {
                        let next = spec_address_after(emission.cursor, elements.last())->Ok_0;
                        lemma_resolved_instruction_encodes(
                            symbols,
                            emission.scope,
                            next,
                            instruction,
                        );
                        lemma_resolution_fails_on_names_only(
                            symbols,
                            emission.scope,
                            instruction.variant,
                            next,
                            instruction.operands,
                        );
                    },
                    _ => {},
                }
            },
            Err(_) => {},
        }
    }
}

/// Resolution fails on an unresolved name only.
pub proof fn lemma_resolution_fails_on_names_only(
    symbols: SpecSymbols,
    scope: Option<Seq<char>>,
    variant: JmpVariant,
    next: u32,
    operands: Seq<SpecTarget>,
)
    ensures
        spec_resolve_operands(symbols, scope, variant, next, operands) matches Err(e) ==> e
            is UnresolvedSymbol,
    decreases operands.len(),
{
    if operands.len() > 0 {
        lemma_resolution_fails_on_names_only(symbols, scope, variant, next, operands.drop_last());
    }
}

/// Whether an element is an `offset` directive.
pub open spec fn spec_is_offset(element: SpecElement) -> bool {
    element matches SpecElement::PreprocessorCommand(SpecCommand::Offset(_))
}

/// The widths of the instructions of a program and the bytes that its
/// directives declare, summed.
pub open spec fn spec_total_size(elements: Seq<SpecElement>) -> nat
    decreases elements.len(),
{
    if elements.len() == 0 {
        0
    } else {
        spec_total_size(elements.drop_last()) + spec_size(elements.last())
    }
}

/// Without an `offset` the cursor of the first pass is the sum of the sizes
/// of the elements behind it.
pub proof fn lemma_cursor_is_total_size(elements: Seq<SpecElement>)
    requires
        forall|i: int| 0 <= i < elements.len() ==> !spec_is_offset(#[trigger] elements[i]),
    ensures
        spec_layout(elements) matches Ok(layout) ==> layout.cursor == spec_total_size(elements),
    decreases elements.len(),
{
    if elements.len() > 0 {
        let before = elements.drop_last();
        assert forall|i: int| 0 <= i < before.len() implies !spec_is_offset(
            #[trigger] before[i],
        ) by {
            assert(before[i] == elements[i]);
        }
        lemma_cursor_is_total_size(before);
        assert(!spec_is_offset(elements[elements.len() - 1]));
    }
}

/// The image of a program without an `offset` has no gaps: its length is
/// the sum of the widths of its instructions and of the bytes that its
/// directives declare.
pub proof fn lemma_image_length_is_total_size(elements: Seq<SpecElement>)
    requires
        spec_program_wf(elements),
        forall|i: int| 0 <= i < elements.len() ==> !spec_is_offset(#[trigger] elements[i]),
    ensures
        spec_assemble(elements) matches Ok(image) ==> image.len() == spec_total_size(elements),
{
    match spec_symbols(elements) {
        Ok(symbols) => {
            lemma_passes_agree(symbols, elements);
            lemma_cursor_is_total_size(elements);
        },
        Err(_) => {},
    }
}

/// The image of any program ends where the first pass ends.
pub proof fn lemma_image_length_is_final_address(elements: Seq<SpecElement>)
    requires
        spec_program_wf(elements),
    ensures
        spec_assemble(elements) matches Ok(image) ==> image.len() == spec_layout(
            elements,
        )->Ok_0.cursor,
{
    match spec_symbols(elements) {
        Ok(symbols) => {
            lemma_passes_agree(symbols, elements);
        },
        Err(_) => {},
    }
}

/// Where the first pass gets through a program, it gets through each of
/// its prefixes.
pub proof fn lemma_layout_of_prefix(elements: Seq<SpecElement>, n: int)
    requires
        0 <= n <= elements.len(),
        spec_layout(elements) is Ok,
    ensures
        spec_layout(elements.take(n)) is Ok,
{
    if spec_layout(elements.take(n)) is Err {
        lemma_layout_failure_stays(elements, n);
    }
}

/// The first pass never takes a definition back: what a prefix has defined,
/// every longer prefix holds with the same value.
pub proof fn lemma_definitions_stay(elements: Seq<SpecElement>, n: int, m: int)
    requires
        0 <= n <= m <= elements.len(),
        spec_layout(elements.take(m)) is Ok,
    ensures
        spec_layout(elements.take(n)) matches Ok(early) && {
            let late = spec_layout(elements.take(m))->Ok_0;
            &&& early.symbols.globals.submap_of(late.symbols.globals)
            &&& early.symbols.subs.submap_of(late.symbols.subs)
        },
    decreases m - n,
{
    if n < m {
        assert(elements.take(m).drop_last() == elements.take(m - 1));
        lemma_definitions_stay(elements, n, m - 1);
        let early = spec_layout(elements.take(n))->Ok_0;
        let middle = spec_layout(elements.take(m - 1))->Ok_0;
        let late = spec_layout(elements.take(m))->Ok_0;
        assert(middle.step(elements.take(m).last()) == Ok::<SpecLayout, SpecError>(late));
        assert(middle.symbols.globals.submap_of(late.symbols.globals));
        assert(middle.symbols.subs.submap_of(late.symbols.subs));
        assert forall|name: Seq<char>| #[trigger]
            early.symbols.globals.dom().contains(name) implies late.symbols.globals.dom().contains(
            name,
        ) && early.symbols.globals[name] == late.symbols.globals[name] by {
            assert(middle.symbols.globals.dom().contains(name));
        }
        assert forall|key: (Seq<char>, Seq<char>)| #[trigger]
            early.symbols.subs.dom().contains(key) implies late.symbols.subs.dom().contains(key)
            && early.symbols.subs[key] == late.symbols.subs[key] by {
            assert(middle.symbols.subs.dom().contains(key));
        }
    }
}

/// A reference to a label resolves to the address at which the label
/// stands. The table that the second pass reads is the finished one, so
/// this holds of a reference that stands before the label as of one that
/// stands after it, and under whatever label the reference stands.
pub proof fn lemma_label_resolves_to_its_address(
    elements: Seq<SpecElement>,
    at: int,
    name: Seq<char>,
)
    requires
        0 <= at < elements.len(),
        elements[at] == SpecElement::Label(name),
        spec_layout(elements) is Ok,
    ensures
        spec_layout(elements.take(at)) is Ok,
        ({
            let address = spec_layout(elements.take(at))->Ok_0.cursor;
            let symbols = spec_symbols(elements)->Ok_0;
            &&& symbols.globals.get(name) == Some(address)
            &&& forall|scope: Option<Seq<char>>| #[trigger]
                spec_resolve(symbols, scope, SpecTarget::Constant(name)) == Ok::<
                    SpecTarget,
                    SpecError,
                >(SpecTarget::Immediate(address))
        }),
{
    lemma_layout_of_prefix(elements, at + 1);
    assert(elements.take(at + 1).drop_last() == elements.take(at));
    assert(elements.take(elements.len() as int) == elements);
    lemma_definitions_stay(elements, at + 1, elements.len() as int);
    let defined = spec_layout(elements.take(at + 1))->Ok_0.symbols;
    assert(defined.globals.contains_key(name));
}

/// A reference to a sub-label resolves, under the label that encloses the
/// sub-label, to the address at which the sub-label stands.
pub proof fn lemma_sub_label_resolves_in_its_scope(
    elements: Seq<SpecElement>,
    at: int,
    name: Seq<char>,
)
    requires
        0 <= at < elements.len(),
        elements[at] == SpecElement::SubLabel(name),
        spec_layout(elements) is Ok,
    ensures
        spec_layout(elements.take(at)) matches Ok(before) && before.scope is Some && {
            let symbols = spec_symbols(elements)->Ok_0;
            &&& symbols.sub(before.scope, name) == Some(before.cursor)
            &&& spec_resolve(symbols, before.scope, SpecTarget::SubConstant(name)) == Ok::<
                SpecTarget,
                SpecError,
            >(SpecTarget::Immediate(before.cursor))
        },
{
    lemma_layout_of_prefix(elements, at + 1);
    assert(elements.take(at + 1).drop_last() == elements.take(at));
    assert(elements.take(elements.len() as int) == elements);
    lemma_definitions_stay(elements, at + 1, elements.len() as int);
    let before = spec_layout(elements.take(at))->Ok_0;
    let defined = spec_layout(elements.take(at + 1))->Ok_0.symbols;
    assert(defined.subs.contains_key((before.scope->Some_0, name)));
}

/// Two sub-labels of one name stand under two different labels, and a
/// reference to the name resolves under each label to the sub-label of that
/// label, never to the other.
pub proof fn lemma_sub_labels_do_not_cross(
    elements: Seq<SpecElement>,
    first: int,
    second: int,
    name: Seq<char>,
)
    requires
        0 <= first < second < elements.len(),
        elements[first] == SpecElement::SubLabel(name),
        elements[second] == SpecElement::SubLabel(name),
        spec_layout(elements) is Ok,
    ensures
        ({
            let one = spec_layout(elements.take(first))->Ok_0;
            let other = spec_layout(elements.take(second))->Ok_0;
            let symbols = spec_symbols(elements)->Ok_0;
            &&& one.scope is Some && other.scope is Some && one.scope != other.scope
            &&& spec_resolve(symbols, one.scope, SpecTarget::SubConstant(name)) == Ok::<
                SpecTarget,
                SpecError,
            >(SpecTarget::Immediate(one.cursor))
            &&& spec_resolve(symbols, other.scope, SpecTarget::SubConstant(name)) == Ok::<
                SpecTarget,
                SpecError,
            >(SpecTarget::Immediate(other.cursor))
        }),
{
    lemma_sub_label_resolves_in_its_scope(elements, first, name);
    lemma_sub_label_resolves_in_its_scope(elements, second, name);
    lemma_layout_of_prefix(elements, first + 1);
    lemma_layout_of_prefix(elements, second + 1);
    assert(elements.take(first + 1).drop_last() == elements.take(first));
    assert(elements.take(second + 1).drop_last() == elements.take(second));
    lemma_definitions_stay(elements, first + 1, second);
    let one = spec_layout(elements.take(first))->Ok_0;
    let defined = spec_layout(elements.take(first + 1))->Ok_0.symbols;
    assert(defined.subs.contains_key((one.scope->Some_0, name)));
}

/// The global name that an element defines: a label its own, a `define`
/// the name it binds.
pub open spec fn spec_global_defined(element: SpecElement) -> Option<Seq<char>> {
    match element {
        SpecElement::Label(name) => Some(name),
        SpecElement::PreprocessorCommand(SpecCommand::Define(name, _)) => Some(name),
        _ => None,
    }
}

/// A program that defines a global name twice is refused. Where nothing
/// fails before the second definition, the failure is `DuplicateSymbol`
/// with that name.
pub proof fn lemma_redefinition_fails(elements: Seq<SpecElement>, first: int, second: int)
    requires
        0 <= first < second < elements.len(),
        spec_global_defined(elements[first]) is Some,
        spec_global_defined(elements[second]) == spec_global_defined(elements[first]),
    ensures
        spec_assemble(elements) is Err,
        spec_layout(elements.take(second)) is Ok ==> spec_assemble(elements) == Err::<
            Seq<u8>,
            SpecError,
        >(SpecError::DuplicateSymbol(spec_global_defined(elements[first])->Some_0)),
{
    let name = spec_global_defined(elements[first])->Some_0;
    if spec_layout(elements.take(second)) is Ok {
        lemma_definitions_stay(elements, first + 1, second);
        assert(elements.take(first + 1).drop_last() == elements.take(first));
        assert(elements.take(second + 1).drop_last() == elements.take(second));
        let defined = spec_layout(elements.take(first + 1))->Ok_0.symbols;
        assert(defined.globals.contains_key(name));
        assert(spec_layout(elements.take(second + 1)) == Err::<SpecLayout, SpecError>(
            SpecError::DuplicateSymbol(name),
        ));
        lemma_layout_failure_stays(elements, second + 1);
    } else {
        lemma_layout_failure_stays(elements, second);
    }
}

/// A prefix of a well-formed program is well formed.
pub proof fn lemma_prefix_wf(elements: Seq<SpecElement>, n: int)
    requires
        0 <= n <= elements.len(),
        spec_program_wf(elements),
    ensures
        spec_program_wf(elements.take(n)),
{
    assert forall|i: int| 0 <= i < elements.take(n).len() implies spec_element_wf(
        #[trigger] elements.take(n)[i],
    ) by {
        assert(elements.take(n)[i] == elements[i]);
    }
}

/// The second pass only appends: what it has written after a prefix is the
/// start of what it has written after every longer one.
pub proof fn lemma_image_grows(symbols: SpecSymbols, elements: Seq<SpecElement>, n: int, m: int)
    requires
        0 <= n <= m <= elements.len(),
        spec_emission(symbols, elements.take(m)) is Ok,
    ensures
        spec_emission(symbols, elements.take(n)) matches Ok(early) && {
            let late = spec_emission(symbols, elements.take(m))->Ok_0;
            &&& early.image.len() <= late.image.len()
            &&& late.image.subrange(0, early.image.len() as int) == early.image
        },
    decreases m - n,
{
    if n < m {
        assert(elements.take(m).drop_last() == elements.take(m - 1));
        lemma_image_grows(symbols, elements, n, m - 1);
        let early = spec_emission(symbols, elements.take(n))->Ok_0;
        let middle = spec_emission(symbols, elements.take(m - 1))->Ok_0;
        let late = spec_emission(symbols, elements.take(m))->Ok_0;
        assert(middle.step(symbols, elements.take(m).last()) == Ok::<SpecEmission, SpecError>(
            late,
        ));
        assert(late.image.subrange(0, middle.image.len() as int) == middle.image);
        assert(late.image.subrange(0, early.image.len() as int) == middle.image.subrange(
            0,
            early.image.len() as int,
        ));
    } else {
        let early = spec_emission(symbols, elements.take(n))->Ok_0;
        assert(early.image.subrange(0, early.image.len() as int) == early.image);
    }
}

/// In the image every element stands at its address: the bytes from the
/// address that the first pass gave the element up to the address after it
/// are the bytes of that element. For an instruction they are its encoding
/// with every operand resolved; for an `offset` they are padding.
pub proof fn lemma_element_stands_at_its_address(elements: Seq<SpecElement>, at: int)
    requires
        spec_program_wf(elements),
        0 <= at < elements.len(),
        spec_assemble(elements) is Ok,
    ensures
        spec_layout(elements.take(at)) is Ok,
        ({
            let symbols = spec_symbols(elements)->Ok_0;
            let image = spec_assemble(elements)->Ok_0;
            let before = spec_layout(elements.take(at))->Ok_0;
            let after = spec_address_after(before.cursor, elements[at]);
            &&& after matches Ok(next) && before.cursor <= next <= image.len()
            &&& spec_element_bytes(symbols, before.scope, before.cursor, after->Ok_0, elements[at])
                == Ok::<Seq<u8>, SpecError>(
                image.subrange(before.cursor as int, after->Ok_0 as int),
            )
        }),
{
    let symbols = spec_symbols(elements)->Ok_0;
    let image = spec_assemble(elements)->Ok_0;
    let all = elements.len() as int;
    assert(elements.take(all) == elements);
    lemma_layout_of_prefix(elements, at);
    lemma_layout_of_prefix(elements, at + 1);
    lemma_image_grows(symbols, elements, at + 1, all);
    lemma_image_grows(symbols, elements, at, at + 1);
    lemma_prefix_wf(elements, at);
    lemma_prefix_wf(elements, at + 1);
    lemma_passes_agree(symbols, elements.take(at));
    lemma_passes_agree(symbols, elements.take(at + 1));
    assert(elements.take(at + 1).drop_last() == elements.take(at));
    let before = spec_emission(symbols, elements.take(at))->Ok_0;
    let after = spec_emission(symbols, elements.take(at + 1))->Ok_0;
    assert(before.step(symbols, elements[at]) == Ok::<SpecEmission, SpecError>(after));
    let bytes = spec_element_bytes(
        symbols,
        before.scope,
        before.cursor,
        after.cursor,
        elements[at],
    )->Ok_0;
    assert(after.image == before.image + bytes);
    assert(image.subrange(0, after.image.len() as int).subrange(
        before.cursor as int,
        after.cursor as int,
    ) == image.subrange(before.cursor as int, after.cursor as int));
    assert(after.image.subrange(before.cursor as int, after.cursor as int) == bytes);
}

/// An `offset` that points forward leaves a gap, and the gap is filled with
/// pad bytes, exactly as many as lie between the cursor and the offset.
pub proof fn lemma_offset_pads_the_gap(elements: Seq<SpecElement>, at: int, offset: u32)
    requires
        spec_program_wf(elements),
        0 <= at < elements.len(),
        elements[at] == SpecElement::PreprocessorCommand(SpecCommand::Offset(offset)),
        spec_assemble(elements) is Ok,
    ensures
        spec_layout(elements.take(at)) is Ok,
        ({
            let image = spec_assemble(elements)->Ok_0;
            let cursor = spec_layout(elements.take(at))->Ok_0.cursor;
            &&& cursor <= offset <= image.len()
            &&& image.subrange(cursor as int, offset as int) == spec_padding(
                (offset - cursor) as nat,
            )
            &&& forall|i: int| cursor <= i < offset ==> image[i] == PAD_BYTE
        }),
{
    lemma_element_stands_at_its_address(elements, at);
    let image = spec_assemble(elements)->Ok_0;
    let cursor = spec_layout(elements.take(at))->Ok_0.cursor;
    assert forall|i: int| cursor <= i < offset implies image[i] == PAD_BYTE by {
        assert(image.subrange(cursor as int, offset as int)[i - cursor] == image[i]);
    }
}

/// An `offset` that points below the cursor is refused with `InvalidOffset`.
pub proof fn lemma_backward_offset_fails(elements: Seq<SpecElement>, at: int, offset: u32)
    requires
        0 <= at < elements.len(),
        elements[at] == SpecElement::PreprocessorCommand(SpecCommand::Offset(offset)),
        spec_layout(elements.take(at)) is Ok,
        offset < spec_layout(elements.take(at))->Ok_0.cursor,
    ensures
        spec_assemble(elements) == Err::<Seq<u8>, SpecError>(
            SpecError::InvalidOffset {
                offset,
                cursor: spec_layout(elements.take(at))->Ok_0.cursor,
            },
        ),
{
    assert(elements.take(at + 1).drop_last() == elements.take(at));
    lemma_layout_failure_stays(elements, at + 1);
}

/// A relative `jmp` to a name that stands for the address `target`,
/// assembled at `cursor`, is encoded with the offset from the address after
/// the `jmp` to `target`, in two's complement. The machine, which adds the
/// offset to that address and wraps, arrives at `target`.
pub proof fn lemma_relative_jump_reaches_target(
    symbols: SpecSymbols,
    scope: Option<Seq<char>>,
    cursor: u32,
    name: Seq<char>,
    target: u32,
)
    requires
        symbols.globals.get(name) == Some(target),
        cursor + 8 <= u32::MAX,
    ensures
        ({
            let jump = SpecInstruction {
                kind: NamedInstruction::Jmp,
                variant: JmpVariant::Relative,
                operands: seq![SpecTarget::Constant(name)],
            };
            let next = (cursor + 8) as u32;
            let offset = spec_displacement(target, next);
            &&& spec_address_after(cursor, SpecElement::Instruction(jump)) == Ok::<u32, SpecError>(
                next,
            )
            &&& offset == (target - next) % 0x1_0000_0000
            &&& (next + offset) % 0x1_0000_0000 == target
            &&& spec_element_bytes(symbols, scope, cursor, next, SpecElement::Instruction(jump))
                == Ok::<Seq<u8>, SpecError>(seq![17u8, 18u8, 0u8, 0u8] + spec_word_bytes(offset))
        }),
{
    let jump = SpecInstruction {
        kind: NamedInstruction::Jmp,
        variant: JmpVariant::Relative,
        operands: seq![SpecTarget::Constant(name)],
    };
    let next = (cursor + 8) as u32;
    let offset = spec_displacement(target, next);
    reveal_with_fuel(spec_resolve_operands, 2);
    reveal_with_fuel(spec_first_symbol, 2);
    reveal_with_fuel(spec_operand_bytes, 2);
    let resolved = seq![SpecTarget::Immediate(offset)];
    assert(jump.operands.drop_last() =~= Seq::<SpecTarget>::empty());
    assert(Seq::<SpecTarget>::empty().push(SpecTarget::Immediate(offset)) =~= resolved);
    assert(spec_resolve_operands(symbols, scope, jump.variant, next, jump.operands) == Ok::<
        Seq<SpecTarget>,
        SpecError,
    >(resolved));
    assert(resolved.drop_last() =~= Seq::<SpecTarget>::empty());
    assert(spec_operand_bytes(resolved) =~= spec_word_bytes(offset));
}

/// Operands that name nothing resolve to themselves.
pub proof fn lemma_concrete_operands_resolve(
    symbols: SpecSymbols,
    scope: Option<Seq<char>>,
    variant: JmpVariant,
    next: u32,
    operands: Seq<SpecTarget>,
)
    requires
        forall|i: int| 0 <= i < operands.len() ==> (#[trigger] operands[i]).is_concrete(),
    ensures
        spec_resolve_operands(symbols, scope, variant, next, operands) == Ok::<
            Seq<SpecTarget>,
            SpecError,
        >(operands),
    decreases operands.len(),
{
    if operands.len() > 0 {
        let before = operands.drop_last();
        assert forall|i: int| 0 <= i < before.len() implies (#[trigger] before[i]).is_concrete(
        ) by {
            assert(before[i] == operands[i]);
        }
        lemma_concrete_operands_resolve(symbols, scope, variant, next, before);
        assert(operands[operands.len() - 1].is_concrete());
        assert(before.push(operands.last()) =~= operands);
    } else {
        assert(operands =~= Seq::<SpecTarget>::empty());
    }
}

/// Where the first operand that cannot be resolved names `name`, the
/// operands are refused with `UnresolvedSymbol` of that name.
pub proof fn lemma_first_unresolved_operand(
    symbols: SpecSymbols,
    scope: Option<Seq<char>>,
    variant: JmpVariant,
    next: u32,
    operands: Seq<SpecTarget>,
    index: int,
    name: Seq<char>,
)
    requires
        0 <= index < operands.len(),
        spec_resolve(symbols, scope, operands[index]) == Err::<SpecTarget, SpecError>(
            SpecError::UnresolvedSymbol(name),
        ),
        forall|i: int| 0 <= i < index ==> (#[trigger] operands[i]).is_concrete(),
    ensures
        spec_resolve_operands(symbols, scope, variant, next, operands) == Err::<
            Seq<SpecTarget>,
            SpecError,
        >(SpecError::UnresolvedSymbol(name)),
    decreases operands.len(),
{
    let before = operands.drop_last();
    if index == operands.len() - 1 {
        assert forall|i: int| 0 <= i < before.len() implies (#[trigger] before[i]).is_concrete(
        ) by {
            assert(before[i] == operands[i]);
        }
        lemma_concrete_operands_resolve(symbols, scope, variant, next, before);
    } else {
        assert(before[index] == operands[index]);
        assert forall|i: int| 0 <= i < index implies (#[trigger] before[i]).is_concrete() by {
            assert(before[i] == operands[i]);
        }
        lemma_first_unresolved_operand(symbols, scope, variant, next, before, index, name);
    }
}

/// A program with an operand that cannot be resolved where it stands is
/// refused with `UnresolvedSymbol`. Where nothing fails before that operand,
/// the name in the failure is the one it refers to.
pub proof fn lemma_unresolved_operand_fails_assembly(
    elements: Seq<SpecElement>,
    at: int,
    index: int,
    name: Seq<char>,
)
    requires
        spec_program_wf(elements),
        0 <= at < elements.len(),
        spec_symbols(elements) is Ok,
        elements[at] matches SpecElement::Instruction(instruction) && 0 <= index
            < instruction.operands.len() && spec_resolve(
            spec_symbols(elements)->Ok_0,
            spec_layout(elements.take(at))->Ok_0.scope,
            instruction.operands[index],
        ) == Err::<SpecTarget, SpecError>(SpecError::UnresolvedSymbol(name)),
    ensures
        spec_assemble(elements) matches Err(e) && e is UnresolvedSymbol,
        ({
            let symbols = spec_symbols(elements)->Ok_0;
            let operands = elements[at]->Instruction_0.operands;
            spec_emission(symbols, elements.take(at)) is Ok && (forall|i: int|
                0 <= i < index ==> (#[trigger] operands[i]).is_concrete()) ==> spec_assemble(
                elements,
            ) == Err::<Seq<u8>, SpecError>(SpecError::UnresolvedSymbol(name))
        }),
{
    let symbols = spec_symbols(elements)->Ok_0;
    let instruction = elements[at]->Instruction_0;
    let operands = instruction.operands;
    lemma_second_pass_fails_on_names_only(symbols, elements);
    lemma_layout_of_prefix(elements, at);
    lemma_prefix_wf(elements, at);
    lemma_passes_agree(symbols, elements.take(at));
    assert(elements.take(at + 1).drop_last() == elements.take(at));
    match spec_emission(symbols, elements.take(at)) {
        Err(_) => {
            lemma_emission_failure_stays(symbols, elements, at);
        },
        Ok(before) => {
            match spec_address_after(before.cursor, elements[at]) {
                Err(_) => {
                    lemma_emission_failure_stays(symbols, elements, at + 1);
                },
                Ok(next) => {
                    lemma_unresolved_operand_fails(
                        symbols,
                        before.scope,
                        instruction.variant,
                        next,
                        operands,
                        index,
                    );
                    if forall|i: int| 0 <= i < index ==> (#[trigger] operands[i]).is_concrete() {
                        lemma_first_unresolved_operand(
                            symbols,
                            before.scope,
                            instruction.variant,
                            next,
                            operands,
                            index,
                            name,
                        );
                    }
                    lemma_emission_failure_stays(symbols, elements, at + 1);
                },
            }
        },
    }
}

/// A program with an operand that refers to a global name which nothing
/// defines is refused with `UnresolvedSymbol`. Where nothing fails before
/// that operand, the name in the failure is the one it refers to.
pub proof fn lemma_undefined_name_fails(
    elements: Seq<SpecElement>,
    at: int,
    index: int,
    name: Seq<char>,
)
    requires
        spec_program_wf(elements),
        0 <= at < elements.len(),
        elements[at] matches SpecElement::Instruction(instruction) && 0 <= index
            < instruction.operands.len() && (instruction.operands[index] == SpecTarget::Constant(
            name,
        ) || instruction.operands[index] == SpecTarget::ConstantAddress(name)),
        spec_symbols(elements) matches Ok(symbols) && !symbols.globals.contains_key(name),
    ensures
        spec_assemble(elements) matches Err(e) && e is UnresolvedSymbol,
        ({
            let symbols = spec_symbols(elements)->Ok_0;
            let operands = elements[at]->Instruction_0.operands;
            spec_emission(symbols, elements.take(at)) is Ok && (forall|i: int|
                0 <= i < index ==> (#[trigger] operands[i]).is_concrete()) ==> spec_assemble(
                elements,
            ) == Err::<Seq<u8>, SpecError>(SpecError::UnresolvedSymbol(name))
        }),
{
    lemma_unresolved_operand_fails_assembly(elements, at, index, name);
}

/// A program with an operand that refers to a scoped name which the label
/// that encloses the operand does not hold is refused with
/// `UnresolvedSymbol`, and so is one that refers to a scoped name before
/// any label. Where nothing fails before that operand, the name in the
/// failure is the one it refers to.
pub proof fn lemma_undefined_sub_name_fails(
    elements: Seq<SpecElement>,
    at: int,
    index: int,
    name: Seq<char>,
)
    requires
        spec_program_wf(elements),
        0 <= at < elements.len(),
        elements[at] matches SpecElement::Instruction(instruction) && 0 <= index
            < instruction.operands.len() && (instruction.operands[index]
            == SpecTarget::SubConstant(name) || instruction.operands[index]
            == SpecTarget::SubConstantAddress(name)),
        spec_symbols(elements) matches Ok(symbols) && symbols.sub(
            spec_layout(elements.take(at))->Ok_0.scope,
            name,
        ) is None,
    ensures
        spec_assemble(elements) matches Err(e) && e is UnresolvedSymbol,
        ({
            let symbols = spec_symbols(elements)->Ok_0;
            let operands = elements[at]->Instruction_0.operands;
            spec_emission(symbols, elements.take(at)) is Ok && (forall|i: int|
                0 <= i < index ==> (#[trigger] operands[i]).is_concrete()) ==> spec_assemble(
                elements,
            ) == Err::<Seq<u8>, SpecError>(SpecError::UnresolvedSymbol(name))
        }),
{
    lemma_unresolved_operand_fails_assembly(elements, at, index, name);
}

/// Operands of which one cannot be resolved are refused.
pub proof fn lemma_unresolved_operand_fails(
    symbols: SpecSymbols,
    scope: Option<Seq<char>>,
    variant: JmpVariant,
    next: u32,
    operands: Seq<SpecTarget>,
    index: int,
)
    requires
        0 <= index < operands.len(),
        spec_resolve(symbols, scope, operands[index]) is Err,
    ensures
        spec_resolve_operands(symbols, scope, variant, next, operands) is Err,
    decreases operands.len(),
{
    let before = operands.drop_last();
    if index < operands.len() - 1 {
        assert(before[index] == operands[index]);
        lemma_unresolved_operand_fails(symbols, scope, variant, next, before, index);
    }
}

/// A program in which no operand names a symbol is assembled where the
/// first pass gets through it: the second pass has nothing to resolve.
pub proof fn lemma_concrete_program_assembles(elements: Seq<SpecElement>)
    requires
        spec_program_wf(elements),
        forall|i: int|
            0 <= i < elements.len() ==> (#[trigger] elements[i] matches SpecElement::Instruction(
                instruction,
            ) ==> instruction.is_concrete()),
    ensures
        spec_assemble(elements) is Ok <==> spec_layout(elements) is Ok,
{
    if spec_layout(elements) is Ok {
        let symbols = spec_symbols(elements)->Ok_0;
        lemma_concrete_emission(symbols, elements, elements.len() as int);
        assert(elements.take(elements.len() as int) == elements);
    }
}

/// The second pass gets through every prefix of a program in which no
/// operand names a symbol, where the first pass does.
pub proof fn lemma_concrete_emission(symbols: SpecSymbols, elements: Seq<SpecElement>, n: int)
    requires
        spec_program_wf(elements),
        0 <= n <= elements.len(),
        spec_layout(elements) is Ok,
        forall|i: int|
            0 <= i < elements.len() ==> (#[trigger] elements[i] matches SpecElement::Instruction(
                instruction,
            ) ==> instruction.is_concrete()),
    ensures
        spec_emission(symbols, elements.take(n)) is Ok,
    decreases n,
{
    if n > 0 {
        lemma_concrete_emission(symbols, elements, n - 1);
        assert(elements.take(n).drop_last() == elements.take(n - 1));
        lemma_layout_of_prefix(elements, n);
        lemma_prefix_wf(elements, n);
        lemma_second_pass_fails_on_names_only(symbols, elements.take(n));
        let before = spec_emission(symbols, elements.take(n - 1))->Ok_0;
        let element = elements[n - 1];
        assert(elements.take(n).last() == element);
        match element {
            SpecElement::Instruction(instruction) => {
                match spec_address_after(before.cursor, element) {
                    Ok(next) => {
                        lemma_concrete_operands_resolve(
                            symbols,
                            before.scope,
                            instruction.variant,
                            next,
                            instruction.operands,
                        );
                        lemma_resolved_instruction_encodes(
                            symbols,
                            before.scope,
                            next,
                            instruction,
                        );
                    },
                    Err(_) => {},
                }
            },
            _ => {},
        }
    }
}

} // verus!
