use vstd::prelude::*;

use crate::engine::heap::{heap_wf, Heap};
use crate::engine::scope::{
    chain_frame, chain_lookup, frame_lookup, scope_values_wf, scope_wf, FrameModel, Scope,
};
use crate::engine::state::{state_wf, State, StateModel};
use crate::engine::tokens::{dup_token, dup_tokens, token_view, tokens_view, Token, TokenModel};
use crate::errors::{EndiumError, ErrorModel};
use crate::values::js_number::{float_of_int, float_parse, float_sub, num_parse, JSNumber};
use crate::values::js_string::JSString;
use crate::values::value_variant::{
    apply_compound, apply_compound_value, value_wf, CompoundOp, JSValueVariant, ValueModel,
};

verus! {

/// The state an evaluation acts on: the scope chain, the heap, and the
/// last-evaluated value.
pub struct MachineModel {
    pub frames: Seq<FrameModel>,
    pub heap: Seq<ValueModel>,
    pub value: ValueModel,
}

/// Well-formedness of a machine: parent links point backwards, and every
/// value anywhere keeps its invariant.
pub open spec fn machine_wf(m: MachineModel) -> bool {
    &&& scope_wf(m.frames)
    &&& scope_values_wf(m.frames)
    &&& heap_wf(m.heap)
    &&& value_wf(m.value)
}

/// What one statement evaluation leaves behind: the machine, the cursor
/// just past the statement, and the error it stopped with, if any.
pub struct EvalOutcome {
    pub m: MachineModel,
    pub pos: int,
    pub err: Option<ErrorModel>,
}

/// The bits of the number one unit of increment stands for.
pub open spec fn one_unit() -> u64 {
    float_of_int(1)
}

/// The bits of the number one unit of decrement stands for.
pub open spec fn neg_one_unit() -> u64 {
    float_sub(float_of_int(0), float_of_int(1))
}

/// `p`, clamped into `0 ..= n`.
pub open spec fn clamp_pos(p: int, n: int) -> int {
    if p < 0 {
        0
    } else if p > n {
        n
    } else {
        p
    }
}

/// The sole expression-boundary rule: the first statement terminator
/// (newline or semicolon) at or after `pos`, or the end of input.
pub open spec fn span_end(tokens: Seq<TokenModel>, pos: int) -> int
    decreases tokens.len() - pos,
{
    if 0 <= pos < tokens.len() && tokens[pos] != TokenModel::Simple(Token::Newline) && tokens[pos]
        != TokenModel::Simple(Token::Semicolon) {
        span_end(tokens, pos + 1)
    } else {
        pos
    }
}

/// Applies a compound assignment (or unit step) to the binding `name`
/// resolves to: through the heap slot where the binding holds a pointer,
/// so every alias observes it; in place in the owning frame otherwise.
/// An immutable binding fails and nothing changes.
pub open spec fn assign_to_binding(
    frames: Seq<FrameModel>,
    heap: Seq<ValueModel>,
    frame: int,
    name: Seq<char>,
    op: CompoundOp,
    rhs: ValueModel,
) -> Result<(Seq<FrameModel>, Seq<ValueModel>), ErrorModel> {
    match chain_frame(frames, frame, name) {
        None => Err(ErrorModel::UndefinedVariable(name)),
        Some(bf) => match frame_lookup(frames[bf].entries, name) {
            None => Err(ErrorModel::UndefinedVariable(name)),
            Some(st) => {
                if !st.mutable {
                    Err(ErrorModel::AssignmentToConstantVariable(name))
                } else {
                    match st.value {
                        ValueModel::Ptr(h) => {
                            if h < heap.len() {
                                Ok(
                                    (
                                        frames,
                                        heap.update(h as int, apply_compound(heap[h as int], op, rhs)),
                                    ),
                                )
                            } else {
                                Err(ErrorModel::HeapHandleNotFound(h))
                            }
                        },
                        v => {
                            let st2 = StateModel { value: apply_compound(v, op, rhs), mutable: true };
                            let f2 = FrameModel {
                                entries: frames[bf].entries.push((name, st2)),
                                parent: frames[bf].parent,
                                instructions: frames[bf].instructions,
                            };
                            Ok((frames.update(bf, f2), heap))
                        },
                    }
                }
            },
        },
    }
}

/// Evaluates statements from `pos` until the end of the token sequence or
/// an `Eof` token, in program order; stops at the first error. This is the
/// meaning of [`Interpretter::execute`].
pub open spec fn eval_from(
    tokens: Seq<TokenModel>,
    m: MachineModel,
    frame: int,
    pos: int,
    depth: nat,
) -> (MachineModel, Option<ErrorModel>)
    decreases depth, tokens.len() - pos, 2int,
{
    if pos < 0 || pos >= tokens.len() {
        (m, None)
    } else if tokens[pos] == TokenModel::Simple(Token::Eof) {
        (m, None)
    } else {
        let st = eval_stmt(tokens, m, frame, pos, depth);
        if st.err is Some {
            (st.m, st.err)
        } else {
            let p2 = if st.pos > pos {
                clamp_pos(st.pos, tokens.len() as int)
            } else {
                pos + 1
            };
            eval_from(tokens, st.m, frame, p2, depth)
        }
    }
}

/// Evaluates the one statement starting at `pos`.
pub open spec fn eval_stmt(
    tokens: Seq<TokenModel>,
    m: MachineModel,
    frame: int,
    pos: int,
    depth: nat,
) -> EvalOutcome
    decreases depth, tokens.len() - pos, 1int,
    when 0 <= pos < tokens.len()
{
    match tokens[pos] {
        TokenModel::Simple(Token::Const) => eval_decl(tokens, m, frame, pos, depth, false),
        TokenModel::Simple(Token::Let) => eval_decl(tokens, m, frame, pos, depth, true),
        TokenModel::Str(t) => EvalOutcome {
            m: MachineModel {
                frames: m.frames,
                heap: m.heap,
                value: ValueModel::Str { text: t, length_bits: float_of_int(t.len() as u64) },
            },
            pos: pos + 1,
            err: None,
        },
        TokenModel::Number(t) => match float_parse(t) {
            Some(b) => EvalOutcome {
                m: MachineModel { frames: m.frames, heap: m.heap, value: ValueModel::Num(b) },
                pos: pos + 1,
                err: None,
            },
            None => EvalOutcome {
                m,
                pos: pos + 1,
                err: Some(ErrorModel::MalformedNumericLiteral(t)),
            },
        },
        TokenModel::Identifier(name) => eval_ident(tokens, m, frame, pos, name, depth),
        TokenModel::Simple(Token::Null) => EvalOutcome {
            m: MachineModel { frames: m.frames, heap: m.heap, value: ValueModel::Null },
            pos: pos + 1,
            err: None,
        },
        TokenModel::Simple(Token::Undefined) => EvalOutcome {
            m: MachineModel { frames: m.frames, heap: m.heap, value: ValueModel::Undefined },
            pos: pos + 1,
            err: None,
        },
        _ => EvalOutcome { m, pos: pos + 1, err: None },
    }
}

/// Evaluates a `const` or `let` declaration at `pos`: consumes the
/// keyword, the bound name and the `=`, collects the value span up to the
/// statement terminator, evaluates it in a fresh child frame of the
/// current frame, and binds the result into the current frame under the
/// declared name. A non-identifier after the keyword skips the keyword.
pub open spec fn eval_decl(
    tokens: Seq<TokenModel>,
    m: MachineModel,
    frame: int,
    pos: int,
    depth: nat,
    mutable: bool,
) -> EvalOutcome
    decreases depth, tokens.len() - pos, 0int,
    when 0 <= pos < tokens.len()
{
    if pos + 1 >= tokens.len() {
        EvalOutcome { m, pos: pos + 1, err: None }
    } else {
        match tokens[pos + 1] {
            TokenModel::Identifier(name) => {
                let start = clamp_pos(pos + 3, tokens.len() as int);
                let e = span_end(tokens, start);
                let after = if e < tokens.len() {
                    e + 1
                } else {
                    e
                };
                if depth == 0 {
                    EvalOutcome { m, pos: after, err: Some(ErrorModel::RecursionLimitExceeded) }
                } else {
                    let span = tokens.subrange(start, e);
                    let child = m.frames.len() as int;
                    let frames1 = m.frames.push(
                        FrameModel {
                            entries: Seq::empty(),
                            parent: Some(frame),
                            instructions: span,
                        },
                    );
                    let sub = MachineModel {
                        frames: frames1,
                        heap: m.heap,
                        value: ValueModel::Undefined,
                    };
                    let (m2, err) = eval_from(span, sub, child, 0, (depth - 1) as nat);
                    match err {
                        Some(er) => EvalOutcome {
                            m: MachineModel { frames: m2.frames, heap: m2.heap, value: m.value },
                            pos: after,
                            err: Some(er),
                        },
                        None => {
                            if 0 <= frame < m2.frames.len() {
                                let st = StateModel { value: m2.value, mutable };
                                let f2 = FrameModel {
                                    entries: m2.frames[frame].entries.push((name, st)),
                                    parent: m2.frames[frame].parent,
                                    instructions: m2.frames[frame].instructions,
                                };
                                EvalOutcome {
                                    m: MachineModel {
                                        frames: m2.frames.update(frame, f2),
                                        heap: m2.heap,
                                        value: m.value,
                                    },
                                    pos: after,
                                    err: None,
                                }
                            } else {
                                EvalOutcome {
                                    m: MachineModel {
                                        frames: m2.frames,
                                        heap: m2.heap,
                                        value: m.value,
                                    },
                                    pos: after,
                                    err: None,
                                }
                            }
                        },
                    }
                }
            },
            _ => EvalOutcome { m, pos: pos + 1, err: None },
        }
    }
}

/// Evaluates an identifier-led statement at `pos`: `++`/`--` mutate the
/// binding by one unit; the four compound assignments evaluate their value
/// span in a child frame and apply the capability; with no following
/// operator the identifier is a bare reference resolved through the live
/// scope chain into the last-evaluated value.
pub open spec fn eval_ident(
    tokens: Seq<TokenModel>,
    m: MachineModel,
    frame: int,
    pos: int,
    name: Seq<char>,
    depth: nat,
) -> EvalOutcome
    decreases depth, tokens.len() - pos, 0int,
    when 0 <= pos < tokens.len()
{
    if pos + 1 < tokens.len() && tokens[pos + 1] == TokenModel::Simple(Token::Increment) {
        eval_unit_step(m, frame, name, pos + 2, ValueModel::Num(one_unit()))
    } else if pos + 1 < tokens.len() && tokens[pos + 1] == TokenModel::Simple(Token::Decrement) {
        eval_unit_step(m, frame, name, pos + 2, ValueModel::Num(neg_one_unit()))
    } else if pos + 1 < tokens.len() && compound_op_of(tokens[pos + 1]) is Some {
        let op = compound_op_of(tokens[pos + 1]).unwrap();
        let start = clamp_pos(pos + 2, tokens.len() as int);
        let e = span_end(tokens, start);
        let after = if e < tokens.len() {
            e + 1
        } else {
            e
        };
        if depth == 0 {
            EvalOutcome { m, pos: after, err: Some(ErrorModel::RecursionLimitExceeded) }
        } else {
            let span = tokens.subrange(start, e);
            let child = m.frames.len() as int;
            let frames1 = m.frames.push(
                FrameModel { entries: Seq::empty(), parent: Some(frame), instructions: span },
            );
            let sub = MachineModel { frames: frames1, heap: m.heap, value: ValueModel::Undefined };
            let (m2, err) = eval_from(span, sub, child, 0, (depth - 1) as nat);
            match err {
                Some(er) => EvalOutcome {
                    m: MachineModel { frames: m2.frames, heap: m2.heap, value: m.value },
                    pos: after,
                    err: Some(er),
                },
                None => match assign_to_binding(m2.frames, m2.heap, frame, name, op, m2.value) {
                    Ok((frames3, heap3)) => EvalOutcome {
                        m: MachineModel { frames: frames3, heap: heap3, value: m.value },
                        pos: after,
                        err: None,
                    },
                    Err(er) => EvalOutcome {
                        m: MachineModel { frames: m2.frames, heap: m2.heap, value: m.value },
                        pos: after,
                        err: Some(er),
                    },
                },
            }
        }
    } else if pos + 1 < tokens.len() && tokens[pos + 1] == TokenModel::Simple(Token::Assign) {
        // a plain reassignment form is not part of the statement language:
        // the span is skipped without effect
        let start = clamp_pos(pos + 2, tokens.len() as int);
        let e = span_end(tokens, start);
        let after = if e < tokens.len() {
            e + 1
        } else {
            e
        };
        EvalOutcome { m, pos: after, err: None }
    } else {
        match chain_lookup(m.frames, frame, name) {
            Some(st) => EvalOutcome {
                m: MachineModel { frames: m.frames, heap: m.heap, value: st.value },
                pos: pos + 1,
                err: None,
            },
            None => EvalOutcome {
                m,
                pos: pos + 1,
                err: Some(ErrorModel::UndefinedVariable(name)),
            },
        }
    }
}

/// One unit of increment or decrement applied to the binding `name`.
pub open spec fn eval_unit_step(
    m: MachineModel,
    frame: int,
    name: Seq<char>,
    after: int,
    unit: ValueModel,
) -> EvalOutcome {
    match assign_to_binding(m.frames, m.heap, frame, name, CompoundOp::Add, unit) {
        Ok((frames2, heap2)) => EvalOutcome {
            m: MachineModel { frames: frames2, heap: heap2, value: m.value },
            pos: after,
            err: None,
        },
        Err(er) => EvalOutcome { m, pos: after, err: Some(er) },
    }
}

/// The compound-assignment operator a token stands for.
pub open spec fn compound_op_of(t: TokenModel) -> Option<CompoundOp> {
    if t == TokenModel::Simple(Token::PlusAssign) {
        Some(CompoundOp::Add)
    } else if t == TokenModel::Simple(Token::MinusAssign) {
        Some(CompoundOp::Sub)
    } else if t == TokenModel::Simple(Token::MultiplyAssign) {
        Some(CompoundOp::Mul)
    } else if t == TokenModel::Simple(Token::DivideAssign) {
        Some(CompoundOp::Div)
    } else {
        None
    }
}


// --- executable helpers ------------------------------------------------

/// Whether a token ends a statement.
fn is_terminator(t: &Token) -> (r: bool)
    ensures
        r == (token_view(*t) == TokenModel::Simple(Token::Newline) || token_view(*t)
            == TokenModel::Simple(Token::Semicolon)),
{
    matches!(t, Token::Newline | Token::Semicolon)
}

/// Finds the end of the value span starting at `pos`.
#[verifier::loop_isolation(false)]
fn scan_span_end(tokens: &Vec<Token>, pos: usize) -> (r: usize)
    requires
        pos <= tokens@.len(),
    ensures
        r as int == span_end(tokens_view(tokens@), pos as int),
        pos <= r <= tokens@.len(),
{
    let ghost t = tokens_view(tokens@);
    let mut i: usize = pos;
    while i < tokens.len() && !is_terminator(&tokens[i])
        invariant
            pos <= i <= tokens@.len(),
            span_end(t, pos as int) == span_end(t, i as int),
        decreases tokens@.len() - i,
    {
        i = i + 1;
    }
    i
}

/// Copies the tokens `tokens[from..to]` into a fresh vector with the same
/// models.
#[verifier::loop_isolation(false)]
fn span_tokens(tokens: &Vec<Token>, from: usize, to: usize) -> (r: Vec<Token>)
    requires
        from <= to <= tokens@.len(),
    ensures
        tokens_view(r@) == tokens_view(tokens@).subrange(from as int, to as int),
        r@.len() == to - from,
{
    let mut out: Vec<Token> = Vec::new();
    let mut i: usize = from;
    while i < to
        invariant
            from <= i <= to <= tokens@.len(),
            out@.len() == i - from,
            forall|j: int|
                0 <= j < out@.len() ==> token_view(#[trigger] out@[j]) == token_view(
                    tokens@[from + j],
                ),
        decreases to - i,
    {
        out.push(dup_token(&tokens[i]));
        i = i + 1;
    }
    proof {
        assert(tokens_view(out@) =~= tokens_view(tokens@).subrange(from as int, to as int));
    }
    out
}

/// A binding found within one frame holds a well-formed value whenever
/// every binding of the frame does.
pub proof fn lemma_frame_lookup_wf(entries: Seq<(Seq<char>, StateModel)>, key: Seq<char>)
    requires
        forall|j: int| 0 <= j < entries.len() ==> state_wf((#[trigger] entries[j]).1),
    ensures
        frame_lookup(entries, key) matches Some(st) ==> value_wf(st.value),
    decreases entries.len(),
{
    if entries.len() == 0 {
    } else if entries.last().0 == key {
        assert(entries[entries.len() - 1] == entries.last());
    } else {
        assert(forall|j: int|
            0 <= j < entries.drop_last().len() ==> (#[trigger] entries.drop_last()[j])
                == entries[j]);
        lemma_frame_lookup_wf(entries.drop_last(), key);
    }
}

/// A binding found through the live chain holds a well-formed value
/// whenever every binding of every frame does.
pub proof fn lemma_chain_lookup_wf(frames: Seq<FrameModel>, f: int, key: Seq<char>)
    requires
        scope_values_wf(frames),
    ensures
        chain_lookup(frames, f, key) matches Some(st) ==> value_wf(st.value),
{
    match chain_frame(frames, f, key) {
        Some(i) => {
            lemma_chain_frame_in_range(frames, f, key);
            lemma_frame_lookup_wf(frames[i].entries, key);
        },
        None => {},
    }
}

/// The frame the chain walk lands in lies inside the arena and binds the
/// name itself.
pub proof fn lemma_chain_frame_in_range(frames: Seq<FrameModel>, f: int, key: Seq<char>)
    ensures
        chain_frame(frames, f, key) matches Some(i) ==> 0 <= i < frames.len() && frame_lookup(
            frames[i].entries,
            key,
        ) is Some,
    decreases
            if 0 <= f < frames.len() {
                f + 1
            } else {
                0
            },
{
    if 0 <= f < frames.len() {
        if frame_lookup(frames[f].entries, key) is Some {
        } else {
            match frames[f].parent {
                Some(p) => {
                    if 0 <= p < f {
                        lemma_chain_frame_in_range(frames, p, key);
                    }
                },
                None => {},
            }
        }
    }
}

/// Applies a compound assignment (or one unit of increment) to the binding
/// `name` resolves to from `frame`: through the heap where the binding
/// holds a pointer, in the owning frame otherwise. An immutable binding
/// fails with `AssignmentToConstantVariable` and changes nothing; a name
/// no frame binds fails with `UndefinedVariable`.
fn assign_binding(
    scope: &mut Scope,
    heap: &mut Heap,
    frame: usize,
    name: &String,
    op: CompoundOp,
    rhs: &JSValueVariant,
) -> (r: Result<(), EndiumError>)
    requires
        scope_wf(old(scope)@),
        frame < old(scope)@.len(),
    ensures
        match r {
            Ok(_) => assign_to_binding(old(scope)@, old(heap)@, frame as int, name@, op, rhs@)
                == Ok::<_, ErrorModel>((final(scope)@, final(heap)@)),
            Err(e) => assign_to_binding(old(scope)@, old(heap)@, frame as int, name@, op, rhs@)
                == Err::<(Seq<FrameModel>, Seq<ValueModel>), _>(e@) && final(scope)@ == old(
                scope,
            )@ && final(heap)@ == old(heap)@,
        },
        final(scope)@.len() == old(scope)@.len(),
        scope_wf(final(scope)@),
        scope_values_wf(old(scope)@) && heap_wf(old(heap)@) ==> scope_values_wf(final(scope)@)
            && heap_wf(final(heap)@),
{
    let ghost frames0 = scope@;
    let ghost heap0 = heap@;
    match scope.resolve_frame(frame, name) {
        None => Err(EndiumError::UndefinedVariable(name.clone())),
        Some(bf) => {
            proof {
                lemma_chain_frame_in_range(frames0, frame as int, name@);
            }
            match scope.get_own_state(bf, name) {
                None => {
                    proof {
                        assert(false);
                    }
                    Err(EndiumError::UndefinedVariable(name.clone()))
                },
                Some(st) => {
                    if !st.is_mutable() {
                        Err(EndiumError::AssignmentToConstantVariable(name.clone()))
                    } else {
                        match st.value() {
                            JSValueVariant::JSPointer(p) => {
                                let h = p.ptr();
                                match heap.get_ptr(h) {
                                    Some(hv) => {
                                        let mut nv = hv.clone();
                                        proof {
                                            if scope_values_wf(frames0) && heap_wf(heap0) {
                                                crate::values::value_variant::lemma_apply_compound_wf(
                                                    nv@,
                                                    op,
                                                    rhs@,
                                                );
                                            }
                                        }
                                        apply_compound_value(&mut nv, op, rhs);
                                        let ok = heap.set_ptr(h, nv);
                                        proof {
                                            assert(ok);
                                        }
                                        Ok(())
                                    },
                                    None => Err(EndiumError::HeapHandleNotFound(h)),
                                }
                            },
                            _ => {
                                let mut nv = st.value().clone();
                                proof {
                                    if scope_values_wf(frames0) && heap_wf(heap0) {
                                        lemma_frame_lookup_wf(frames0[bf as int].entries, name@);
                                        crate::values::value_variant::lemma_apply_compound_wf(
                                            nv@,
                                            op,
                                            rhs@,
                                        );
                                    }
                                }
                                apply_compound_value(&mut nv, op, rhs);
                                scope.insert_state(bf, name.clone(), State::new(nv, true));
                                proof {
                                    let st2 = StateModel {
                                        value: apply_compound(st@.value, op, rhs@),
                                        mutable: true,
                                    };
                                    let f2 = FrameModel {
                                        entries: frames0[bf as int].entries.push((name@, st2)),
                                        parent: frames0[bf as int].parent,
                                        instructions: frames0[bf as int].instructions,
                                    };
                                    assert(final(scope)@ =~= frames0.update(bf as int, f2));
                                }
                                Ok(())
                            },
                        }
                    }
                },
            }
        },
    }
}


/// Runs a `const` or `let` declaration statement; returns the cursor just
/// past it, or the error it stopped with.
#[verifier::loop_isolation(false)]
fn exec_decl(
    scope: &mut Scope,
    heap: &mut Heap,
    tokens: &Vec<Token>,
    frame: usize,
    pos: usize,
    depth: u64,
    mutable: bool,
    Ghost(v): Ghost<ValueModel>,
) -> (r: (usize, Option<EndiumError>))
    requires
        pos < tokens@.len(),
        scope_wf(old(scope)@),
        scope_values_wf(old(scope)@),
        heap_wf(old(heap)@),
        frame < old(scope)@.len(),
    ensures
        ({
            let out = eval_decl(
                tokens_view(tokens@),
                MachineModel { frames: old(scope)@, heap: old(heap)@, value: v },
                frame as int,
                pos as int,
                depth as nat,
                mutable,
            );
            &&& out.m.frames == final(scope)@
            &&& out.m.heap == final(heap)@
            &&& out.m.value == v
            &&& out.pos == r.0 as int
            &&& match r.1 {
                None => out.err is None,
                Some(e) => out.err == Some(e@),
            }
        }),
        pos < r.0 <= tokens@.len(),
        scope_wf(final(scope)@),
        scope_values_wf(final(scope)@),
        heap_wf(final(heap)@),
        final(scope)@.len() >= old(scope)@.len(),
    decreases depth, 0int,
{
    let ghost t = tokens_view(tokens@);
    let ghost cur = MachineModel { frames: old(scope)@, heap: old(heap)@, value: v };
    let ghost pos0 = pos as int;
    let n = tokens.len();
    if pos + 1 >= n {
        return (pos + 1, None);
    }
    match &tokens[pos + 1] {
        Token::Identifier(name) => {
            let start = if n - pos >= 3 {
                pos + 3
            } else {
                n
            };
            proof {
                assert(start as int == clamp_pos(pos0 + 3, t.len() as int));
            }
            let e = scan_span_end(tokens, start);
            let after = if e < n {
                e + 1
            } else {
                e
            };
            if depth == 0 {
                return (after, Some(EndiumError::RecursionLimitExceeded));
            }
            let span_a = span_tokens(tokens, start, e);
            let span_b = dup_tokens(&span_a);
            let ghost frames_before = scope@;
            let child = scope.add_child(frame, span_b);
            proof {
                assert(scope@ =~= frames_before.push(
                    FrameModel {
                        entries: Seq::empty(),
                        parent: Some(frame as int),
                        instructions: t.subrange(start as int, e as int),
                    },
                ));
            }
            let mut subval = JSValueVariant::Undefined;
            let rsub = exec_stmts(scope, heap, &span_a, child, &mut subval, depth - 1);
            match rsub {
                Err(er) => (after, Some(er)),
                Ok(_) => {
                    let ghost m2frames = scope@;
                    let ghost sv = subval@;
                    let st = State::new(subval, mutable);
                    scope.insert_state(frame, name.clone(), st);
                    proof {
                        let stm = StateModel { value: sv, mutable };
                        let f2 = FrameModel {
                            entries: m2frames[frame as int].entries.push((name@, stm)),
                            parent: m2frames[frame as int].parent,
                            instructions: m2frames[frame as int].instructions,
                        };
                        assert(scope@ =~= m2frames.update(frame as int, f2));
                    }
                    (after, None)
                },
            }
        },
        _ => (pos + 1, None),
    }
}


/// Runs an identifier-led statement; returns the cursor just past it, or
/// the error it stopped with. A bare reference writes the resolved value
/// into `value`.
#[verifier::loop_isolation(false)]
fn exec_ident(
    scope: &mut Scope,
    heap: &mut Heap,
    tokens: &Vec<Token>,
    frame: usize,
    pos: usize,
    name: &String,
    value: &mut JSValueVariant,
    depth: u64,
) -> (r: (usize, Option<EndiumError>))
    requires
        pos < tokens@.len(),
        tokens_view(tokens@)[pos as int] == TokenModel::Identifier(name@),
        scope_wf(old(scope)@),
        scope_values_wf(old(scope)@),
        heap_wf(old(heap)@),
        value_wf(old(value)@),
        frame < old(scope)@.len(),
    ensures
        ({
            let out = eval_ident(
                tokens_view(tokens@),
                MachineModel { frames: old(scope)@, heap: old(heap)@, value: old(value)@ },
                frame as int,
                pos as int,
                name@,
                depth as nat,
            );
            &&& out.m.frames == final(scope)@
            &&& out.m.heap == final(heap)@
            &&& out.m.value == final(value)@
            &&& out.pos == r.0 as int
            &&& match r.1 {
                None => out.err is None,
                Some(e) => out.err == Some(e@),
            }
        }),
        pos < r.0 <= tokens@.len(),
        scope_wf(final(scope)@),
        scope_values_wf(final(scope)@),
        heap_wf(final(heap)@),
        value_wf(final(value)@),
        final(scope)@.len() >= old(scope)@.len(),
    decreases depth, 0int,
{
    let ghost t = tokens_view(tokens@);
    let ghost cur = MachineModel { frames: old(scope)@, heap: old(heap)@, value: old(value)@ };
    let ghost pos0 = pos as int;
    let n = tokens.len();
    let has_op = pos + 1 < n;
    if has_op && matches!(&tokens[pos + 1], Token::Increment) {
        let one = JSValueVariant::JSNumber(JSNumber::from_int(1));
        match assign_binding(scope, heap, frame, name, CompoundOp::Add, &one) {
            Ok(_) => (pos + 2, None),
            Err(er) => (pos + 2, Some(er)),
        }
    } else if has_op && matches!(&tokens[pos + 1], Token::Decrement) {
        let zero = JSNumber::from_int(0);
        let one = JSNumber::from_int(1);
        let neg = JSValueVariant::JSNumber(
            JSNumber::new(crate::values::js_number::num_sub(zero.bits, one.bits)),
        );
        match assign_binding(scope, heap, frame, name, CompoundOp::Add, &neg) {
            Ok(_) => (pos + 2, None),
            Err(er) => (pos + 2, Some(er)),
        }
    } else if has_op && matches!(
        &tokens[pos + 1],
        Token::PlusAssign | Token::MinusAssign | Token::MultiplyAssign | Token::DivideAssign,
    ) {
        let op = match &tokens[pos + 1] {
            Token::PlusAssign => CompoundOp::Add,
            Token::MinusAssign => CompoundOp::Sub,
            Token::MultiplyAssign => CompoundOp::Mul,
            _ => CompoundOp::Div,
        };
        proof {
            assert(compound_op_of(t[pos0 + 1]) == Some(op));
        }
        let start = pos + 2;
        proof {
            assert(start as int == clamp_pos(pos0 + 2, t.len() as int));
        }
        let e = scan_span_end(tokens, start);
        let after = if e < n {
            e + 1
        } else {
            e
        };
        if depth == 0 {
            return (after, Some(EndiumError::RecursionLimitExceeded));
        }
        let span_a = span_tokens(tokens, start, e);
        let span_b = dup_tokens(&span_a);
        let ghost frames_before = scope@;
        let child = scope.add_child(frame, span_b);
        proof {
            assert(scope@ =~= frames_before.push(
                FrameModel {
                    entries: Seq::empty(),
                    parent: Some(frame as int),
                    instructions: t.subrange(start as int, e as int),
                },
            ));
        }
        let mut subval = JSValueVariant::Undefined;
        let rsub = exec_stmts(scope, heap, &span_a, child, &mut subval, depth - 1);
        match rsub {
            Err(er) => (after, Some(er)),
            Ok(_) => {
                match assign_binding(scope, heap, frame, name, op, &subval) {
                    Ok(_) => (after, None),
                    Err(er) => (after, Some(er)),
                }
            },
        }
    } else if has_op && matches!(&tokens[pos + 1], Token::Assign) {
        let start = pos + 2;
        proof {
            assert(start as int == clamp_pos(pos0 + 2, t.len() as int));
        }
        let e = scan_span_end(tokens, start);
        let after = if e < n {
            e + 1
        } else {
            e
        };
        (after, None)
    } else {
        proof {
            if pos0 + 1 < t.len() {
                assert(t[pos0 + 1] != TokenModel::Simple(Token::Increment));
                assert(t[pos0 + 1] != TokenModel::Simple(Token::Decrement));
                assert(compound_op_of(t[pos0 + 1]) is None);
                assert(t[pos0 + 1] != TokenModel::Simple(Token::Assign));
            }
        }
        match scope.get_state(frame, name) {
            Some(st) => {
                proof {
                    lemma_chain_lookup_wf(cur.frames, frame as int, name@);
                }
                *value = st.value;
                (pos + 1, None)
            },
            None => (pos + 1, Some(EndiumError::UndefinedVariable(name.clone()))),
        }
    }
}

/// Runs the statements of `tokens` against the given context, in program
/// order, stopping at the first error or at an `Eof` token. The machine
/// afterwards and the outcome are exactly [`eval_from`] of the starting
/// machine.
#[verifier::loop_isolation(false)]
fn exec_stmts(
    scope: &mut Scope,
    heap: &mut Heap,
    tokens: &Vec<Token>,
    frame: usize,
    value: &mut JSValueVariant,
    depth: u64,
) -> (r: Result<(), EndiumError>)
    requires
        scope_wf(old(scope)@),
        scope_values_wf(old(scope)@),
        heap_wf(old(heap)@),
        value_wf(old(value)@),
        frame < old(scope)@.len(),
    ensures
        ({
            let out = eval_from(
                tokens_view(tokens@),
                MachineModel { frames: old(scope)@, heap: old(heap)@, value: old(value)@ },
                frame as int,
                0,
                depth as nat,
            );
            &&& out.0.frames == final(scope)@
            &&& out.0.heap == final(heap)@
            &&& out.0.value == final(value)@
            &&& match r {
                Ok(_) => out.1 is None,
                Err(e) => out.1 == Some(e@),
            }
        }),
        scope_wf(final(scope)@),
        scope_values_wf(final(scope)@),
        heap_wf(final(heap)@),
        value_wf(final(value)@),
        final(scope)@.len() >= old(scope)@.len(),
    decreases depth, 1int,
{
    let ghost t = tokens_view(tokens@);
    let ghost m0 = MachineModel { frames: old(scope)@, heap: old(heap)@, value: old(value)@ };
    let ghost d = depth as nat;
    let n = tokens.len();
    let mut pos: usize = 0;
    while pos < n
        invariant
            pos <= n,
            frame < scope@.len(),
            scope_wf(scope@),
            scope_values_wf(scope@),
            heap_wf(heap@),
            value_wf(value@),
            scope@.len() >= m0.frames.len(),
            eval_from(t, m0, frame as int, 0, d) == eval_from(
                t,
                MachineModel { frames: scope@, heap: heap@, value: value@ },
                frame as int,
                pos as int,
                d,
            ),
        decreases n - pos,
    {
        let ghost cur = MachineModel { frames: scope@, heap: heap@, value: value@ };
        let ghost pos0 = pos as int;
        match &tokens[pos] {
            Token::Eof => {
                return Ok(());
            },
            Token::Const => {
                proof {
                    assert(t[pos0] == TokenModel::Simple(Token::Const));
                }
                let (np, err) = exec_decl(scope, heap, tokens, frame, pos, depth, false, Ghost(cur.value));
                proof {
                    let stq = eval_stmt(t, cur, frame as int, pos0, d);
                    assert(stq == eval_decl(t, cur, frame as int, pos0, d, false));
                    if stq.err is Some {
                        assert(eval_from(t, cur, frame as int, pos0, d) == (stq.m, stq.err));
                    }
                }
                match err {
                    Some(e) => {
                        return Err(e);
                    },
                    None => {
                        pos = np;
                    },
                }
            },
            Token::Let => {
                proof {
                    assert(t[pos0] == TokenModel::Simple(Token::Let));
                }
                let (np, err) = exec_decl(scope, heap, tokens, frame, pos, depth, true, Ghost(cur.value));
                proof {
                    let stq = eval_stmt(t, cur, frame as int, pos0, d);
                    assert(stq == eval_decl(t, cur, frame as int, pos0, d, true));
                    if stq.err is Some {
                        assert(eval_from(t, cur, frame as int, pos0, d) == (stq.m, stq.err));
                    }
                }
                match err {
                    Some(e) => {
                        return Err(e);
                    },
                    None => {
                        pos = np;
                    },
                }
            },
            Token::String(txt) => {
                *value = JSValueVariant::JSString(JSString::from(txt.clone()));
                pos = pos + 1;
            },
            Token::Number(ntxt) => {
                match num_parse(ntxt.as_str()) {
                    Some(b) => {
                        *value = JSValueVariant::JSNumber(JSNumber::new(b));
                        pos = pos + 1;
                    },
                    None => {
                        proof {
                            assert(t[pos0] == TokenModel::Number(ntxt@));
                            let stq = eval_stmt(t, cur, frame as int, pos0, d);
                            assert(eval_from(t, cur, frame as int, pos0, d) == (stq.m, stq.err));
                        }
                        return Err(EndiumError::MalformedNumericLiteral(ntxt.clone()));
                    },
                }
            },
            Token::Identifier(name) => {
                proof {
                    assert(t[pos0] == TokenModel::Identifier(name@));
                }
                let (np, err) = exec_ident(scope, heap, tokens, frame, pos, name, value, depth);
                proof {
                    let stq = eval_stmt(t, cur, frame as int, pos0, d);
                    assert(stq == eval_ident(t, cur, frame as int, pos0, name@, d));
                    if stq.err is Some {
                        assert(eval_from(t, cur, frame as int, pos0, d) == (stq.m, stq.err));
                    }
                }
                match err {
                    Some(e) => {
                        return Err(e);
                    },
                    None => {
                        pos = np;
                    },
                }
            },
            Token::Null => {
                *value = JSValueVariant::Null;
                pos = pos + 1;
            },
            Token::Undefined => {
                *value = JSValueVariant::Undefined;
                pos = pos + 1;
            },
            _ => {
                pos = pos + 1;
            },
        }
    }
    Ok(())
}


/// How deep nested value evaluation may go before the engine reports
/// `RecursionLimitExceeded` instead of exhausting the call stack.
pub const DEFAULT_RECURSION_LIMIT: u64 = 64;

/// The statement/expression execution engine: a single forward scan over a
/// token sequence against a scope chain and a heap, producing a resulting
/// value and side effects on both.
///
/// Each interpreter owns its runtime context — scope and heap — so
/// independent instances never share state.
#[derive(Debug)]
pub struct Interpretter {
    pub scope: Scope,
    pub heap: Heap,
    pub instructions: Vec<Token>,
    pub interpretted_value: JSValueVariant,
    pub position: usize,
    pub frame: usize,
    pub max_depth: u64,
}

/// The machine an interpreter stands at.
pub open spec fn machine_of(it: Interpretter) -> MachineModel {
    MachineModel { frames: it.scope@, heap: it.heap@, value: it.interpretted_value@ }
}

/// Well-formedness of an interpreter: its machine is well formed and its
/// current frame lies in the arena.
pub open spec fn interp_wf(it: Interpretter) -> bool {
    &&& machine_wf(machine_of(it))
    &&& it.frame < it.scope@.len()
}

impl Interpretter {
    /// An interpreter over the given instructions, with a fresh root scope
    /// and a fresh heap; with a scope given, over that scope's chain
    /// instead, at its root frame.
    pub fn new(tokens: Option<Vec<Token>>, scope: Option<Scope>) -> (r: Interpretter)
        requires
            match scope {
                Some(s) => scope_wf(s@) && scope_values_wf(s@) && s@.len() >= 1,
                None => true,
            },
        ensures
            interp_wf(r),
            r.position == 0,
            r.frame == 0,
            r.interpretted_value@ == ValueModel::Undefined,
            r.max_depth == DEFAULT_RECURSION_LIMIT,
            match scope {
                Some(s) => r.scope@ == s@ && r.heap@ == Seq::<ValueModel>::empty() && (match tokens {
                    Some(tk) => tokens_view(r.instructions@) == tokens_view(tk@),
                    None => tokens_view(r.instructions@) == s@[0].instructions,
                }),
                None => {
                    &&& r.heap@ == Seq::<ValueModel>::empty()
                    &&& r.scope@.len() == 1
                    &&& r.scope@[0].entries == Seq::<(Seq<char>, StateModel)>::empty()
                    &&& r.scope@[0].parent is None
                    &&& (match tokens {
                        Some(tk) => tokens_view(r.instructions@) == tokens_view(tk@)
                            && r.scope@[0].instructions == tokens_view(tk@),
                        None => tokens_view(r.instructions@) == Seq::<TokenModel>::empty()
                            && r.scope@[0].instructions == Seq::<TokenModel>::empty(),
                    })
                },
            },
    {
        match scope {
            Some(s) => {
                let instructions = match tokens {
                    Some(tk) => tk,
                    None => dup_tokens(s.instructions(0)),
                };
                Interpretter {
                    scope: s,
                    heap: Heap::new(),
                    instructions,
                    interpretted_value: JSValueVariant::Undefined,
                    position: 0,
                    frame: 0,
                    max_depth: DEFAULT_RECURSION_LIMIT,
                }
            },
            None => {
                let tk = match tokens {
                    Some(tk) => tk,
                    None => Vec::new(),
                };
                let instructions = dup_tokens(&tk);
                proof {
                    if tk@.len() == 0 {
                        assert(tokens_view(tk@) =~= Seq::<TokenModel>::empty());
                        assert(tokens_view(instructions@) =~= Seq::<TokenModel>::empty());
                    }
                }
                Interpretter {
                    scope: Scope::new(tk),
                    heap: Heap::new(),
                    instructions,
                    interpretted_value: JSValueVariant::Undefined,
                    position: 0,
                    frame: 0,
                    max_depth: DEFAULT_RECURSION_LIMIT,
                }
            },
        }
    }

    /// An interpreter over an existing runtime context: the given scope
    /// chain and heap, at the root frame, with the given instructions.
    pub fn with_context(scope: Scope, heap: Heap, instructions: Vec<Token>) -> (r: Interpretter)
        requires
            scope_wf(scope@),
            scope_values_wf(scope@),
            heap_wf(heap@),
            scope@.len() >= 1,
        ensures
            interp_wf(r),
            r.scope@ == scope@,
            r.heap@ == heap@,
            tokens_view(r.instructions@) == tokens_view(instructions@),
            r.interpretted_value@ == ValueModel::Undefined,
            r.position == 0,
            r.frame == 0,
            r.max_depth == DEFAULT_RECURSION_LIMIT,
    {
        Interpretter {
            scope,
            heap,
            instructions,
            interpretted_value: JSValueVariant::Undefined,
            position: 0,
            frame: 0,
            max_depth: DEFAULT_RECURSION_LIMIT,
        }
    }

    /// Runs the whole instruction sequence, statement by statement in
    /// program order, stopping at the first error; the scope, the heap and
    /// the last-evaluated value afterwards are exactly [`eval_from`] of
    /// the starting machine.
    pub fn execute(&mut self) -> (r: Result<(), EndiumError>)
        requires
            interp_wf(*old(self)),
        ensures
            ({
                let out = eval_from(
                    tokens_view(old(self).instructions@),
                    machine_of(*old(self)),
                    old(self).frame as int,
                    0,
                    old(self).max_depth as nat,
                );
                &&& final(self).scope@ == out.0.frames
                &&& final(self).heap@ == out.0.heap
                &&& final(self).interpretted_value@ == out.0.value
                &&& match r {
                    Ok(_) => out.1 is None,
                    Err(e) => out.1 == Some(e@),
                }
            }),
            interp_wf(*final(self)),
            final(self).instructions == old(self).instructions,
            final(self).frame == old(self).frame,
            final(self).max_depth == old(self).max_depth,
            final(self).position == old(self).instructions@.len(),
    {
        let r = exec_stmts(
            &mut self.scope,
            &mut self.heap,
            &self.instructions,
            self.frame,
            &mut self.interpretted_value,
            self.max_depth,
        );
        self.position = self.instructions.len();
        r
    }

    /// Accumulates the tokens of the value span at the cursor, up to the
    /// first statement terminator; the terminator is not included and the
    /// cursor stops just past it.
    pub fn value_collector(&mut self) -> (r: Vec<Token>)
        requires
            old(self).position <= old(self).instructions@.len(),
        ensures
            ({
                let t = tokens_view(old(self).instructions@);
                let e = span_end(t, old(self).position as int);
                &&& tokens_view(r@) == t.subrange(old(self).position as int, e)
                &&& final(self).position as int == (if e < t.len() {
                    e + 1
                } else {
                    e
                })
            }),
            final(self).scope == old(self).scope,
            final(self).heap == old(self).heap,
            final(self).instructions == old(self).instructions,
            final(self).interpretted_value == old(self).interpretted_value,
            final(self).frame == old(self).frame,
            final(self).max_depth == old(self).max_depth,
    {
        let e = scan_span_end(&self.instructions, self.position);
        let r = span_tokens(&self.instructions, self.position, e);
        self.position = if e < self.instructions.len() {
            e + 1
        } else {
            e
        };
        r
    }

    /// Runs the `const` declaration at the cursor: binds the declared name
    /// immutably in the current frame to the value of its span, evaluated
    /// in a fresh child frame, and moves the cursor past the statement.
    pub fn handle_const(&mut self) -> (r: Result<(), EndiumError>)
        requires
            interp_wf(*old(self)),
            old(self).position < old(self).instructions@.len(),
        ensures
            ({
                let out = eval_decl(
                    tokens_view(old(self).instructions@),
                    machine_of(*old(self)),
                    old(self).frame as int,
                    old(self).position as int,
                    old(self).max_depth as nat,
                    false,
                );
                &&& final(self).scope@ == out.m.frames
                &&& final(self).heap@ == out.m.heap
                &&& final(self).position as int == out.pos
                &&& match r {
                    Ok(_) => out.err is None,
                    Err(e) => out.err == Some(e@),
                }
            }),
            interp_wf(*final(self)),
            final(self).interpretted_value == old(self).interpretted_value,
            final(self).instructions == old(self).instructions,
            final(self).frame == old(self).frame,
    {
        let (np, err) = exec_decl(
            &mut self.scope,
            &mut self.heap,
            &self.instructions,
            self.frame,
            self.position,
            self.max_depth,
            false,
            Ghost(self.interpretted_value@),
        );
        self.position = np;
        match err {
            Some(e) => Err(e),
            None => Ok(()),
        }
    }

    /// Runs the `let` declaration at the cursor, as [`Self::handle_const`]
    /// does, but the binding is mutable.
    pub fn handle_let(&mut self) -> (r: Result<(), EndiumError>)
        requires
            interp_wf(*old(self)),
            old(self).position < old(self).instructions@.len(),
        ensures
            ({
                let out = eval_decl(
                    tokens_view(old(self).instructions@),
                    machine_of(*old(self)),
                    old(self).frame as int,
                    old(self).position as int,
                    old(self).max_depth as nat,
                    true,
                );
                &&& final(self).scope@ == out.m.frames
                &&& final(self).heap@ == out.m.heap
                &&& final(self).position as int == out.pos
                &&& match r {
                    Ok(_) => out.err is None,
                    Err(e) => out.err == Some(e@),
                }
            }),
            interp_wf(*final(self)),
            final(self).interpretted_value == old(self).interpretted_value,
            final(self).instructions == old(self).instructions,
            final(self).frame == old(self).frame,
    {
        let (np, err) = exec_decl(
            &mut self.scope,
            &mut self.heap,
            &self.instructions,
            self.frame,
            self.position,
            self.max_depth,
            true,
            Ghost(self.interpretted_value@),
        );
        self.position = np;
        match err {
            Some(e) => Err(e),
            None => Ok(()),
        }
    }

    /// Runs the identifier-led statement at the cursor: `++`/`--` and the
    /// compound assignments mutate the binding the name resolves to; a
    /// bare reference resolves through the live scope chain into the
    /// result value.
    pub fn handle_identifier(&mut self, identifier: &String) -> (r: Result<(), EndiumError>)
        requires
            interp_wf(*old(self)),
            old(self).position < old(self).instructions@.len(),
            tokens_view(old(self).instructions@)[old(self).position as int]
                == TokenModel::Identifier(identifier@),
        ensures
            ({
                let out = eval_ident(
                    tokens_view(old(self).instructions@),
                    machine_of(*old(self)),
                    old(self).frame as int,
                    old(self).position as int,
                    identifier@,
                    old(self).max_depth as nat,
                );
                &&& final(self).scope@ == out.m.frames
                &&& final(self).heap@ == out.m.heap
                &&& final(self).interpretted_value@ == out.m.value
                &&& final(self).position as int == out.pos
                &&& match r {
                    Ok(_) => out.err is None,
                    Err(e) => out.err == Some(e@),
                }
            }),
            interp_wf(*final(self)),
            final(self).instructions == old(self).instructions,
            final(self).frame == old(self).frame,
    {
        let (np, err) = exec_ident(
            &mut self.scope,
            &mut self.heap,
            &self.instructions,
            self.frame,
            self.position,
            identifier,
            &mut self.interpretted_value,
            self.max_depth,
        );
        self.position = np;
        match err {
            Some(e) => Err(e),
            None => Ok(()),
        }
    }

    /// The last-evaluated value.
    pub fn interpretted_value(&self) -> (r: &JSValueVariant)
        ensures
            r == &self.interpretted_value,
    {
        &self.interpretted_value
    }

    /// The scope chain.
    pub fn scope(&self) -> (r: &Scope)
        ensures
            r == &self.scope,
    {
        &self.scope
    }

    /// The heap of this run.
    pub fn heap(&self) -> (r: &Heap)
        ensures
            r == &self.heap,
    {
        &self.heap
    }
}

/// Runs a token sequence from scratch: a fresh root scope, a fresh heap
/// and the default recursion limit; the result is the last-evaluated
/// value, or the first runtime error.
pub fn run(tokens: Vec<Token>) -> (r: Result<JSValueVariant, EndiumError>)
    ensures
        ({
            let m0 = MachineModel {
                frames: seq![
                    FrameModel {
                        entries: Seq::empty(),
                        parent: None,
                        instructions: tokens_view(tokens@),
                    },
                ],
                heap: Seq::empty(),
                value: ValueModel::Undefined,
            };
            let out = eval_from(
                tokens_view(tokens@),
                m0,
                0,
                0,
                DEFAULT_RECURSION_LIMIT as nat,
            );
            match r {
                Ok(v) => out.1 is None && v@ == out.0.value,
                Err(e) => out.1 == Some(e@),
            }
        }),
{
    let ghost tv = tokens_view(tokens@);
    let mut it = Interpretter::new(Some(tokens), None);
    proof {
        assert(it.scope@ =~= seq![
            FrameModel { entries: Seq::empty(), parent: None, instructions: tv },
        ]);
    }
    match it.execute() {
        Ok(_) => Ok(it.interpretted_value),
        Err(e) => Err(e),
    }
}

} // verus!
