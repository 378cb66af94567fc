//! Compiled patterns and their rendering against a package record.
use vstd::prelude::*;

use crate::parse::{lemma_next_token_advances, tokens, RawChunk, RawToken, Parser};

verus! {

/// A node of a compiled pattern, as the specification sees it.
pub enum Piece {
    Literal(Seq<char>),
    Package,
    License,
    Repository,
}

/// A node of a compiled pattern.
#[derive(Debug)]
pub enum Chunk {
    /// Literal text, emitted verbatim.
    Raw(String),
    /// The package identifier.
    Package,
    /// The license, when there is one.
    License,
    /// The repository URL, when there is one.
    Repository,
}

impl View for Chunk {
    type V = Piece;

    open spec fn view(&self) -> Piece {
        match self {
            Chunk::Raw(s) => Piece::Literal(s@),
            Chunk::Package => Piece::Package,
            Chunk::License => Piece::License,
            Chunk::Repository => Piece::Repository,
        }
    }
}

/// Why a format string did not compile, as the specification sees it.
pub enum Failure {
    MalformedPattern(Seq<char>),
    UnsupportedPlaceholder(Seq<char>),
}

/// Why a format string did not compile.
#[derive(Debug, PartialEq, Eq)]
pub enum PatternError {
    /// A brace that opens or closes nothing; carries a description.
    MalformedPattern(String),
    /// A well-formed placeholder whose name is not supported; carries the name.
    UnsupportedPlaceholder(String),
}

/// The message shown to a user for a failure.
pub open spec fn failure_message(f: Failure) -> Seq<char> {
    match f {
        Failure::MalformedPattern(d) => d,
        Failure::UnsupportedPlaceholder(a) => "unsupported pattern `"@ + a + "`"@,
    }
}

impl PatternError {
    /// A description of the error, fit to be shown to a user.
    pub fn to_string(&self) -> (r: String)
        ensures
            r@ == failure_message(self@),
    {
        match self {
            PatternError::MalformedPattern(d) => d.clone(),
            PatternError::UnsupportedPlaceholder(a) => {
                let mut r = String::from_str("unsupported pattern `");
                r.append(a.as_str());
                r.append("`");
                r
            },
        }
    }
}

impl View for PatternError {
    type V = Failure;

    open spec fn view(&self) -> Failure {
        match self {
            PatternError::MalformedPattern(s) => Failure::MalformedPattern(s@),
            PatternError::UnsupportedPlaceholder(s) => Failure::UnsupportedPlaceholder(s@),
        }
    }
}

/// The node that a supported placeholder name stands for.
pub open spec fn placeholder_piece(name: Seq<char>) -> Option<Piece> {
    if name == seq!['p'] {
        Some(Piece::Package)
    } else if name == seq!['l'] {
        Some(Piece::License)
    } else if name == seq!['r'] {
        Some(Piece::Repository)
    } else {
        None
    }
}

/// The node that one token compiles to, or the failure it raises.
pub open spec fn piece_of(t: RawToken) -> Result<Piece, Failure> {
    match t {
        RawToken::Text(s) => Ok(Piece::Literal(s)),
        RawToken::Argument(a) => match placeholder_piece(a) {
            Some(p) => Ok(p),
            None => Err(Failure::UnsupportedPlaceholder(a)),
        },
        RawToken::Error(d) => Err(Failure::MalformedPattern(d)),
    }
}

/// `r` with `xs` put in front of its nodes when it is a success.
pub open spec fn prepend(xs: Seq<Piece>, r: Result<Seq<Piece>, Failure>) -> Result<
    Seq<Piece>,
    Failure,
> {
    match r {
        Ok(ys) => Ok(xs + ys),
        Err(e) => Err(e),
    }
}

/// Compiles tokens in order; the first token that fails decides the result.
pub open spec fn compile_tokens(ts: Seq<RawToken>) -> Result<Seq<Piece>, Failure>
    decreases ts.len(),
{
    if ts.len() == 0 {
        Ok(seq![])
    } else {
        match piece_of(ts[0]) {
            Ok(p) => prepend(seq![p], compile_tokens(ts.drop_first())),
            Err(e) => Err(e),
        }
    }
}

/// What compiling the format string `s` gives.
pub open spec fn compile(s: Seq<char>) -> Result<Seq<Piece>, Failure> {
    compile_tokens(tokens(s))
}

/// The record that a pattern is rendered against.
pub struct Context {
    pub package_id: Seq<char>,
    pub license: Option<Seq<char>>,
    pub repository: Option<Seq<char>>,
}

/// The text of an optional field; nothing when it is absent.
pub open spec fn field_text(f: Option<Seq<char>>) -> Seq<char> {
    match f {
        Some(s) => s,
        None => seq![],
    }
}

/// What one node adds to the output.
pub open spec fn contribution(p: Piece, ctx: Context) -> Seq<char> {
    match p {
        Piece::Literal(s) => s,
        Piece::Package => ctx.package_id,
        Piece::License => field_text(ctx.license),
        Piece::Repository => field_text(ctx.repository),
    }
}

/// The contributions of the nodes, concatenated in order.
pub open spec fn render(ps: Seq<Piece>, ctx: Context) -> Seq<char>
    decreases ps.len(),
{
    if ps.len() == 0 {
        seq![]
    } else {
        render(ps.drop_last(), ctx) + contribution(ps.last(), ctx)
    }
}

pub open spec fn views(cs: Seq<Chunk>) -> Seq<Piece> {
    cs.map_values(|c: Chunk| c@)
}

/// The license and repository of a package, as far as a pattern reads them.
pub struct PackageMetadata {
    pub license: Option<String>,
    pub repository: Option<String>,
}

pub open spec fn opt_view(f: Option<String>) -> Option<Seq<char>> {
    match f {
        Some(s) => Some(s@),
        None => None,
    }
}

/// The context made of a package's display text and its metadata.
pub open spec fn context_of(package: Seq<char>, metadata: PackageMetadata) -> Context {
    Context {
        package_id: package,
        license: opt_view(metadata.license),
        repository: opt_view(metadata.repository),
    }
}

/// The node for a supported placeholder name.
fn placeholder_chunk(name: &str) -> (r: Option<Chunk>)
    ensures
        match placeholder_piece(name@) {
            Some(p) => r matches Some(c) && c@ == p,
            None => r is None,
        },
{
    if name.unicode_len() != 1 {
        assert(name@ != seq!['p'] && name@ != seq!['l'] && name@ != seq!['r']);
        return None;
    }
    let c = name.get_char(0);
    assert(name@ =~= seq![c]);
    if c == 'p' {
        Some(Chunk::Package)
    } else if c == 'l' {
        Some(Chunk::License)
    } else if c == 'r' {
        Some(Chunk::Repository)
    } else {
        assert(name@ != seq!['p'] && name@ != seq!['l'] && name@ != seq!['r']);
        None
    }
}

/// The outcome of [`Pattern::new`], in the terms of [`compile`].
pub open spec fn outcome(r: Result<Pattern, PatternError>) -> Result<Seq<Piece>, Failure> {
    match r {
        Ok(p) => Ok(p@),
        Err(e) => Err(e@),
    }
}

/// A compiled format string: an ordered list of nodes.
#[derive(Debug)]
pub struct Pattern(Vec<Chunk>);

impl View for Pattern {
    type V = Seq<Piece>;

    closed spec fn view(&self) -> Seq<Piece> {
        views(self.0@)
    }
}

impl Pattern {
    /// Compiles a format string, failing on the first malformed brace or
    /// unsupported placeholder.
    pub fn new(format: &str) -> (r: Result<Pattern, PatternError>)
        ensures
            outcome(r) == compile(format@),
    {
        let mut chunks: Vec<Chunk> = Vec::new();
        let mut parser = Parser::new(format);
        loop
            invariant
                parser.wf(),
                parser.source() == format@,
                compile(format@) == prepend(views(chunks@), compile_tokens(parser.remaining())),
            ensures
                compile(format@) == Ok::<Seq<Piece>, Failure>(views(chunks@)),
            decreases parser.source().len() - parser.pos(),
        {
            let ghost before = parser;
            proof {
                if parser.pos() < parser.source().len() {
                    lemma_next_token_advances(parser.source(), parser.pos());
                }
            }
            let raw = match parser.next() {
                Some(raw) => raw,
                None => {
                    assert(before.remaining() =~= Seq::<RawToken>::empty());
                    assert(views(chunks@) + Seq::<Piece>::empty() =~= views(chunks@));
                    break;
                },
            };
            let ghost rest = parser.remaining();
            assert(before.remaining() == seq![raw@] + rest);
            assert((seq![raw@] + rest).drop_first() =~= rest);
            let chunk = match raw {
                RawChunk::Text(text) => Chunk::Raw(text),
                RawChunk::Argument(name) => match placeholder_chunk(name.as_str()) {
                    Some(c) => c,
                    None => {
                        return Err(PatternError::UnsupportedPlaceholder(name));
                    },
                },
                RawChunk::Error(description) => {
                    return Err(PatternError::MalformedPattern(description));
                },
            };
            let ghost xs = views(chunks@);
            chunks.push(chunk);
            assert(views(chunks@) =~= xs + seq![chunk@]);
            assert forall|ys: Seq<Piece>| xs + (seq![chunk@] + ys) =~= (xs + seq![chunk@]) + ys by {}
        }
        Ok(Pattern(chunks))
    }

    /// Pairs the pattern with a package's display text and metadata, ready to
    /// be turned into text.
    pub fn display<'a>(&'a self, package: &'a str, metadata: &'a PackageMetadata) -> (d: Display<'a>)
        ensures
            d.text() == render(self@, context_of(package@, *metadata)),
    {
        Display { pattern: self, package, metadata }
    }
}

/// A pattern bound to one package.
pub struct Display<'a> {
    pattern: &'a Pattern,
    package: &'a str,
    metadata: &'a PackageMetadata,
}

impl<'a> Display<'a> {
    /// The text that [`Display::to_string`] produces.
    pub closed spec fn text(&self) -> Seq<char> {
        render(self.pattern@, context_of(self.package@, *self.metadata))
    }

    /// Renders each node in order: literal text verbatim, the package's
    /// display text, and the license and repository when present.
    pub fn to_string(&self) -> (r: String)
        ensures
            r@ == self.text(),
    {
        let ghost ctx = context_of(self.package@, *self.metadata);
        let chunks = &self.pattern.0;
        let ghost ps = views(chunks@);
        let mut out = String::new();
        let mut i: usize = 0;
        while i < chunks.len()
            invariant
                i <= chunks.len(),
                ps == views(chunks@),
                ctx == context_of(self.package@, *self.metadata),
                out@ == render(ps.take(i as int), ctx),
            decreases chunks.len() - i,
        {
            let ghost prev = out@;
            assert(ps.take(i + 1).last() == chunks@[i as int]@);
            match &chunks[i] {
                Chunk::Raw(s) => out.append(s.as_str()),
                Chunk::Package => out.append(self.package),
                Chunk::License => {
                    if let Some(license) = &self.metadata.license {
                        out.append(license.as_str());
                    }
                },
                Chunk::Repository => {
                    if let Some(repository) = &self.metadata.repository {
                        out.append(repository.as_str());
                    }
                },
            }
            assert(ps.take(i + 1).drop_last() =~= ps.take(i as int));
            assert(out@ =~= prev + contribution(chunks@[i as int]@, ctx));
            assert(out@ =~= render(ps.take(i + 1), ctx));
            i = i + 1;
        }
        assert(ps.take(i as int) =~= ps);
        out
    }
}

} // verus!
