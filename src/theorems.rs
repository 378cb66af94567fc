//! Facts about compiling and rendering that hold for every input.
use vstd::prelude::*;

use crate::parse::{close_of, next_token, text_run, tokens, tokens_from, RawToken};
use crate::pattern::{
    compile, compile_tokens, contribution, outcome, piece_of, prepend, render, Context, Failure, Pattern, PatternError, Piece,
};

verus! {

/// Text without braces is one literal run up to the end of input.
proof fn lemma_plain_text_run(s: Seq<char>, i: int)
    requires
        0 <= i <= s.len(),
        forall|k: int| 0 <= k < s.len() ==> s[k] != '{' && s[k] != '}',
    ensures
        text_run(s, i) == (s.subrange(i, s.len() as int), s.len() as int),
    decreases s.len() - i,
{
    if i < s.len() {
        lemma_plain_text_run(s, i + 1);
        assert(seq![s[i]] + s.subrange(i + 1, s.len() as int) =~= s.subrange(i, s.len() as int));
    } else {
        assert(s.subrange(i, s.len() as int) =~= Seq::<char>::empty());
    }
}

/// Compiling a token in front of others.
proof fn lemma_compile_cons(t: RawToken, rest: Seq<RawToken>)
    ensures
        compile_tokens(seq![t] + rest) == match piece_of(t) {
            Ok(p) => prepend(seq![p], compile_tokens(rest)),
            Err(e) => Err(e),
        },
{
    assert((seq![t] + rest).drop_first() =~= rest);
}

/// Rendering a pattern with one more node at its end.
proof fn lemma_render_push(ps: Seq<Piece>, p: Piece, ctx: Context)
    ensures
        render(ps.push(p), ctx) == render(ps, ctx) + contribution(p, ctx),
{
    assert(ps.push(p).drop_last() =~= ps);
}

/// A format string without placeholders or braces compiles, and renders to
/// itself against every record.
pub proof fn lemma_plain_text_round_trip(s: Seq<char>, ctx: Context)
    requires
        forall|k: int| 0 <= k < s.len() ==> s[k] != '{' && s[k] != '}',
    ensures
        compile(s) is Ok,
        render(compile(s)->Ok_0, ctx) == s,
{
    lemma_empty_format(ctx);
    if s.len() > 0 {
        lemma_plain_text_run(s, 0);
        assert(s.subrange(0, s.len() as int) =~= s);
        assert(tokens_from(s, s.len() as int) =~= Seq::<RawToken>::empty());
        assert(tokens(s) =~= seq![RawToken::Text(s)] + Seq::<RawToken>::empty());
        lemma_compile_cons(RawToken::Text(s), Seq::<RawToken>::empty());
        let ps = seq![Piece::Literal(s)];
        assert(Seq::<Piece>::empty().push(Piece::Literal(s)) =~= ps);
        assert(ps + Seq::<Piece>::empty() =~= ps);
        lemma_render_push(Seq::<Piece>::empty(), Piece::Literal(s), ctx);
        assert(render(ps, ctx) =~= s);
    }
}

/// The empty format string compiles to an empty pattern, which renders to the
/// empty text against every record.
pub proof fn lemma_empty_format(ctx: Context)
    ensures
        compile(Seq::<char>::empty()) == Ok::<Seq<Piece>, Failure>(Seq::<Piece>::empty()),
        render(Seq::<Piece>::empty(), ctx) == Seq::<char>::empty(),
{
    assert(tokens(Seq::<char>::empty()) =~= Seq::<RawToken>::empty());
    assert(compile_tokens(Seq::<RawToken>::empty()) == Ok::<Seq<Piece>, Failure>(
        Seq::<Piece>::empty(),
    ));
}

/// Doubled braces are literal: `{{p}}` compiles to one literal node and
/// renders to `{p}` against every record.
pub proof fn lemma_escaped_braces(ctx: Context)
    ensures
        compile("{{p}}"@) == Ok::<Seq<Piece>, Failure>(seq![Piece::Literal("{p}"@)]),
        render(seq![Piece::Literal("{p}"@)], ctx) == "{p}"@,
{
    reveal_strlit("{{p}}");
    reveal_strlit("{p}");
    lemma_empty_format(ctx);
    let s = "{{p}}"@;
    let lit = "{p}"@;
    assert(s =~= seq!['{', '{', 'p', '}', '}']);
    assert(lit =~= seq!['{', 'p', '}']);
    assert(text_run(s, 5) == (Seq::<char>::empty(), 5int));
    assert(text_run(s, 3) == (seq!['}'], 5int));
    assert(text_run(s, 2) == (seq!['p', '}'], 5int));
    assert(text_run(s, 0) == (lit, 5int));
    assert(tokens_from(s, 5) =~= Seq::<RawToken>::empty());
    assert(tokens(s) =~= seq![RawToken::Text(lit)] + Seq::<RawToken>::empty());
    lemma_compile_cons(RawToken::Text(lit), Seq::<RawToken>::empty());
    let ps = seq![Piece::Literal(lit)];
    assert(ps + Seq::<Piece>::empty() =~= ps);
    assert(Seq::<Piece>::empty().push(Piece::Literal(lit)) =~= ps);
    lemma_render_push(Seq::<Piece>::empty(), Piece::Literal(lit), ctx);
    assert(render(ps, ctx) =~= lit);
}

/// An absent license contributes nothing: `[{l}]` renders to `[]`, the
/// brackets kept, against every record without a license.
pub proof fn lemma_absent_license(ctx: Context)
    requires
        ctx.license is None,
    ensures
        compile("[{l}]"@) == Ok::<Seq<Piece>, Failure>(
            seq![Piece::Literal("["@), Piece::License, Piece::Literal("]"@)],
        ),
        render(seq![Piece::Literal("["@), Piece::License, Piece::Literal("]"@)], ctx) == "[]"@,
{
    reveal_strlit("[{l}]");
    reveal_strlit("[");
    reveal_strlit("]");
    reveal_strlit("[]");
    lemma_empty_format(ctx);
    let s = "[{l}]"@;
    let open = "["@;
    let close = "]"@;
    assert(s =~= seq!['[', '{', 'l', '}', ']']);
    assert(open =~= seq!['[']);
    assert(close =~= seq![']']);
    assert(text_run(s, 1) == (Seq::<char>::empty(), 1int));
    assert(text_run(s, 0) == (open, 1int));
    assert(text_run(s, 5) == (Seq::<char>::empty(), 5int));
    assert(text_run(s, 4) == (close, 5int));
    assert(close_of(s, 3) == 3);
    assert(close_of(s, 2) == 3);
    assert(s.subrange(2, 3) =~= seq!['l']);
    let t0 = RawToken::Text(open);
    let t1 = RawToken::Argument(seq!['l']);
    let t2 = RawToken::Text(close);
    let e = Seq::<RawToken>::empty();
    assert(next_token(s, 4) == Some((t2, 5int)));
    assert(next_token(s, 1) == Some((t1, 4int)));
    assert(next_token(s, 0) == Some((t0, 1int)));
    assert(tokens_from(s, 5) =~= e);
    assert(tokens_from(s, 4) =~= seq![t2] + e);
    assert(tokens_from(s, 1) =~= seq![t1] + (seq![t2] + e));
    assert(tokens(s) =~= seq![t0] + (seq![t1] + (seq![t2] + e)));
    assert(seq!['l'][0] != seq!['p'][0]);
    assert(seq!['l'] != seq!['p']);
    assert(piece_of(t1) == Ok::<Piece, Failure>(Piece::License));
    lemma_compile_cons(t2, e);
    lemma_compile_cons(t1, seq![t2] + e);
    lemma_compile_cons(t0, seq![t1] + (seq![t2] + e));
    let p2 = seq![Piece::Literal(close)];
    let p1 = seq![Piece::License, Piece::Literal(close)];
    let p0 = seq![Piece::Literal(open), Piece::License, Piece::Literal(close)];
    assert(p2 + Seq::<Piece>::empty() =~= p2);
    assert(seq![Piece::License] + p2 =~= p1);
    assert(seq![Piece::Literal(open)] + p1 =~= p0);
    assert(compile_tokens(seq![t2] + e) == Ok::<Seq<Piece>, Failure>(p2));
    assert(compile_tokens(seq![t1] + (seq![t2] + e)) == Ok::<Seq<Piece>, Failure>(p1));
    let q1 = Seq::<Piece>::empty().push(Piece::Literal(open));
    let q2 = q1.push(Piece::License);
    assert(q2.push(Piece::Literal(close)) =~= p0);
    lemma_render_push(Seq::<Piece>::empty(), Piece::Literal(open), ctx);
    lemma_render_push(q1, Piece::License, ctx);
    lemma_render_push(q2, Piece::Literal(close), ctx);
    assert(render(p0, ctx) =~= "[]"@);
}

/// Compiling equal format strings gives equal outcomes, and rendering equal
/// patterns against equal records gives equal text.
pub proof fn lemma_deterministic(
    f1: Seq<char>,
    f2: Seq<char>,
    r1: Result<Pattern, PatternError>,
    r2: Result<Pattern, PatternError>,
    ps: Seq<Piece>,
    ctx: Context,
    out1: Seq<char>,
    out2: Seq<char>,
)
    requires
        f1 == f2,
        outcome(r1) == compile(f1),
        outcome(r2) == compile(f2),
        out1 == render(ps, ctx),
        out2 == render(ps, ctx),
    ensures
        outcome(r1) == outcome(r2),
        out1 == out2,
{
}

} // verus!
