use vstd::prelude::*;

use crate::engine::interpretter::{
    assign_to_binding, eval_from, eval_stmt, EvalOutcome, MachineModel,
};
use crate::engine::lexer::{cons_tok, digits_end, lex_from, number_end};
use crate::engine::scope::{chain_frame, chain_lookup, frame_lookup, scope_wf, FrameModel};
use crate::engine::tokens::TokenModel;
use crate::errors::ErrorModel;
use crate::values::js_number::{
    all_digits, is_digit, is_exponent, is_mantissa, is_numeric_literal, float_parse,
};
use crate::values::value_variant::{apply_compound, CompoundOp, ValueModel};

verus! {

proof fn lemma_digits_run(s: Seq<char>, a: int, b: int)
    requires
        0 <= a <= b <= s.len(),
        forall|j: int| a <= j < b ==> is_digit(#[trigger] s[j]),
        b == s.len() || !is_digit(s[b]),
    ensures
        digits_end(s, a) == b,
    decreases b - a,
{
    if a < b {
        lemma_digits_run(s, a + 1, b);
    }
}

proof fn lemma_all_digits_range(s: Seq<char>, a: int, b: int)
    requires
        0 <= a <= b <= s.len(),
        all_digits(s.subrange(a, b)),
    ensures
        forall|j: int| a <= j < b ==> is_digit(#[trigger] s[j]),
{
    assert forall|j: int| a <= j < b implies is_digit(#[trigger] s[j]) by {
        assert(s.subrange(a, b)[j - a] == s[j]);
    }
}

/// A mantissa occupying `s[0..k)`, followed by nothing or by a character
/// that is neither a digit nor a dot, is scanned to exactly `k`.
proof fn lemma_mantissa_scan(s: Seq<char>, k: int)
    requires
        0 < k <= s.len(),
        is_mantissa(s.subrange(0, k)),
        k == s.len() || (!is_digit(s[k]) && s[k] != '.'),
    ensures
        is_digit(s[0]),
        ({
            let d = digits_end(s, 0);
            let f = if d < s.len() && s[d] == '.' {
                digits_end(s, d + 1)
            } else {
                d
            };
            f == k
        }),
{
    let u = s.subrange(0, k);
    if u.len() > 0 && all_digits(u) {
        lemma_all_digits_range(s, 0, k);
        lemma_digits_run(s, 0, k);
    } else {
        let j = choose|j: int|
            0 < j < u.len() && #[trigger] u[j] == '.' && all_digits(u.subrange(0, j))
                && all_digits(u.subrange(j + 1, u.len() as int));
        assert(u.subrange(0, j) =~= s.subrange(0, j));
        assert(u.subrange(j + 1, u.len() as int) =~= s.subrange(j + 1, k));
        lemma_all_digits_range(s, 0, j);
        lemma_all_digits_range(s, j + 1, k);
        assert(s[j] == '.');
        lemma_digits_run(s, 0, j);
        lemma_digits_run(s, j + 1, k);
    }
}

/// A well-shaped numeric literal text standing alone is scanned to its
/// very end, starting from its first digit.
proof fn lemma_numeric_end(s: Seq<char>)
    requires
        is_numeric_literal(s),
    ensures
        s.len() > 0,
        is_digit(s[0]),
        number_end(s, 0) == s.len(),
{
    if is_mantissa(s) {
        assert(s.subrange(0, s.len() as int) =~= s);
        lemma_mantissa_scan(s, s.len() as int);
    } else {
        let k = choose|k: int|
            0 < k < s.len() && is_mantissa(#[trigger] s.subrange(0, k)) && is_exponent(
                s.subrange(k, s.len() as int),
            );
        let v = s.subrange(k, s.len() as int);
        assert(v[0] == s[k]);
        assert(s[k] == 'e' || s[k] == 'E');
        lemma_mantissa_scan(s, k);
        if v[1] == '+' || v[1] == '-' {
            assert(v.subrange(2, v.len() as int) =~= s.subrange(k + 2, s.len() as int));
            lemma_all_digits_range(s, k + 2, s.len() as int);
            assert(is_digit(s[k + 2]));
            lemma_digits_run(s, k + 3, s.len() as int);
        } else {
            assert(v.subrange(1, v.len() as int) =~= s.subrange(k + 1, s.len() as int));
            lemma_all_digits_range(s, k + 1, s.len() as int);
            assert(is_digit(s[k + 1]));
            lemma_digits_run(s, k + 2, s.len() as int);
        }
    }
}

/// Lexing a valid numeric literal text yields exactly one `Number` token
/// carrying that text.
pub proof fn lemma_numeric_literal_lex(s: Seq<char>)
    requires
        is_numeric_literal(s),
    ensures
        lex_from(s, 0) == Ok::<Seq<TokenModel>, ErrorModel>(seq![TokenModel::Number(s)]),
{
    lemma_numeric_end(s);
    assert(s.subrange(0, s.len() as int) =~= s);
    assert(lex_from(s, s.len() as int) == Ok::<Seq<TokenModel>, ErrorModel>(Seq::empty()));
    assert(lex_from(s, 0) == cons_tok(
        TokenModel::Number(s.subrange(0, s.len() as int)),
        lex_from(s, s.len() as int),
    ));
    assert(seq![TokenModel::Number(s)] + Seq::<TokenModel>::empty() =~= seq![
        TokenModel::Number(s),
    ]);
}

/// For all valid numeric literal texts: lexing the text yields a single
/// `Number` token, and evaluating that token yields the number the text
/// parses to — whenever the text parses, which the engine's parsing
/// routine guarantees for every such text.
pub proof fn lemma_numeric_literal_round_trip(
    s: Seq<char>,
    m: MachineModel,
    frame: int,
    depth: nat,
)
    requires
        is_numeric_literal(s),
        float_parse(s) is Some,
    ensures
        lex_from(s, 0) == Ok::<Seq<TokenModel>, ErrorModel>(seq![TokenModel::Number(s)]),
        eval_from(seq![TokenModel::Number(s)], m, frame, 0, depth) == (
            MachineModel {
                frames: m.frames,
                heap: m.heap,
                value: ValueModel::Num(float_parse(s).unwrap()),
            },
            None::<ErrorModel>,
        ),
{
    lemma_numeric_literal_lex(s);
    let t = seq![TokenModel::Number(s)];
    assert(t[0] == TokenModel::Number(s));
    let m2 = MachineModel {
        frames: m.frames,
        heap: m.heap,
        value: ValueModel::Num(float_parse(s).unwrap()),
    };
    let st = eval_stmt(t, m, frame, 0, depth);
    assert(st == EvalOutcome { m: m2, pos: 1, err: None });
    assert(eval_from(t, m2, frame, 1, depth) == (m2, None::<ErrorModel>));
    assert(eval_from(t, m, frame, 0, depth) == (m2, None::<ErrorModel>));
}

/// A mutation aimed at an immutable binding fails with
/// `AssignmentToConstantVariable` — and, the outcome being an error,
/// alters neither the scope chain nor the heap.
pub proof fn lemma_const_binding_unchanged(
    frames: Seq<FrameModel>,
    heap: Seq<ValueModel>,
    frame: int,
    name: Seq<char>,
    op: CompoundOp,
    rhs: ValueModel,
)
    requires
        chain_lookup(frames, frame, name) matches Some(st) && !st.mutable,
    ensures
        assign_to_binding(frames, heap, frame, name, op, rhs) == Err::<
            (Seq<FrameModel>, Seq<ValueModel>),
            ErrorModel,
        >(ErrorModel::AssignmentToConstantVariable(name)),
{
}

/// Two bindings holding the same heap handle observe each other's
/// mutation: a compound assignment through the first leaves every frame
/// unchanged and rewrites only the shared heap slot, so the second
/// binding, still holding the same handle, resolves through the heap to
/// the updated value.
pub proof fn lemma_alias_observes_mutation(
    frames: Seq<FrameModel>,
    heap: Seq<ValueModel>,
    f1: int,
    p: Seq<char>,
    f2: int,
    q: Seq<char>,
    h: u64,
    op: CompoundOp,
    rhs: ValueModel,
)
    requires
        chain_lookup(frames, f1, p) matches Some(st) && st.value == ValueModel::Ptr(h)
            && st.mutable,
        chain_lookup(frames, f2, q) matches Some(st2) && st2.value == ValueModel::Ptr(h),
        h < heap.len(),
    ensures
        assign_to_binding(frames, heap, f1, p, op, rhs) matches Ok(r) && ({
            let (frames2, heap2) = r;
            &&& frames2 == frames
            &&& heap2[h as int] == apply_compound(heap[h as int], op, rhs)
            &&& chain_lookup(frames2, f2, q) == chain_lookup(frames, f2, q)
            &&& heap2.len() == heap.len()
        }),
{
}

/// Scope lookup is live, never a snapshot: where a frame's own bindings do
/// not hold a name, the lookup through the chain equals the lookup from
/// its parent at the same moment — so a child created before an outer
/// binding was reassigned observes the new value.
pub proof fn lemma_live_parent_lookup(frames: Seq<FrameModel>, c: int, key: Seq<char>)
    requires
        scope_wf(frames),
        0 <= c < frames.len(),
        frame_lookup(frames[c].entries, key) is None,
    ensures
        frames[c].parent matches Some(p) ==> chain_lookup(frames, c, key) == chain_lookup(
            frames,
            p,
            key,
        ),
        frames[c].parent is None ==> chain_lookup(frames, c, key) is None,
{
}

} // verus!
