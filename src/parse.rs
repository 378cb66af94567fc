//! Lexer for format strings: splits the input into literal text, placeholder
//! names and lexical errors.
use vstd::prelude::*;

verus! {

/// A token as the specification sees it.
pub enum RawToken {
    Text(Seq<char>),
    Argument(Seq<char>),
    Error(Seq<char>),
}

/// A token produced by [`Parser::next`].
#[derive(Debug, PartialEq, Eq)]
pub enum RawChunk {
    /// Literal text, with escaped braces already collapsed.
    Text(String),
    /// The characters found between `{` and `}`, verbatim.
    Argument(String),
    /// A description of a structural error; nothing follows it.
    Error(String),
}

impl View for RawChunk {
    type V = RawToken;

    open spec fn view(&self) -> RawToken {
        match self {
            RawChunk::Text(s) => RawToken::Text(s@),
            RawChunk::Argument(s) => RawToken::Argument(s@),
            RawChunk::Error(s) => RawToken::Error(s@),
        }
    }
}

/// Description of a `{` that is never closed; `rest` is the input from that
/// brace on.
pub open spec fn unterminated_message(rest: Seq<char>) -> Seq<char> {
    "expected '}' to close `"@ + rest + "`"@
}

/// Description of a `}` that closes nothing; `rest` is the input from that
/// brace on.
pub open spec fn unmatched_close_message(rest: Seq<char>) -> Seq<char> {
    "unexpected '}' at `"@ + rest + "`"@
}

/// `s[i]` and `s[i + 1]` are the same brace: an escaped literal brace.
pub open spec fn is_escape(s: Seq<char>, i: int) -> bool {
    &&& 0 <= i
    &&& i + 1 < s.len()
    &&& s[i] == '{' || s[i] == '}'
    &&& s[i + 1] == s[i]
}

/// The literal text that starts at `i`, with escapes collapsed, and the index
/// where it stops: at the end of input or at a brace that is not escaped.
pub open spec fn text_run(s: Seq<char>, i: int) -> (Seq<char>, int)
    decreases s.len() - i,
{
    if i < 0 || i >= s.len() {
        (seq![], i)
    } else if is_escape(s, i) {
        let rest = text_run(s, i + 2);
        (seq![s[i]] + rest.0, rest.1)
    } else if s[i] == '{' || s[i] == '}' {
        (seq![], i)
    } else {
        let rest = text_run(s, i + 1);
        (seq![s[i]] + rest.0, rest.1)
    }
}

/// The index of the first `}` at or after `k`, or `s.len()` when there is none.
pub open spec fn close_of(s: Seq<char>, k: int) -> int
    decreases s.len() - k,
{
    if k >= s.len() {
        s.len() as int
    } else if s[k] == '}' {
        k
    } else {
        close_of(s, k + 1)
    }
}

/// The token that starts at `i`, and the index where the next one starts.
pub open spec fn next_token(s: Seq<char>, i: int) -> Option<(RawToken, int)> {
    if i < 0 || i >= s.len() {
        None
    } else if s[i] == '{' && !is_escape(s, i) {
        let j = close_of(s, i + 1);
        if j < s.len() {
            Some((RawToken::Argument(s.subrange(i + 1, j)), j + 1))
        } else {
            Some((RawToken::Error(unterminated_message(s.subrange(i, s.len() as int))), s.len() as int))
        }
    } else if s[i] == '}' && !is_escape(s, i) {
        Some(
            (RawToken::Error(unmatched_close_message(s.subrange(i, s.len() as int))), s.len() as int),
        )
    } else {
        Some((RawToken::Text(text_run(s, i).0), text_run(s, i).1))
    }
}

/// The tokens of `s` from index `i` on.
pub open spec fn tokens_from(s: Seq<char>, i: int) -> Seq<RawToken>
    decreases s.len() - i,
{
    match next_token(s, i) {
        Some((t, j)) => if i < j <= s.len() {
            seq![t] + tokens_from(s, j)
        } else {
            seq![]
        },
        None => seq![],
    }
}

/// The whole token sequence of a format string.
pub open spec fn tokens(s: Seq<char>) -> Seq<RawToken> {
    tokens_from(s, 0)
}

pub proof fn lemma_text_run_bounds(s: Seq<char>, i: int)
    requires
        0 <= i <= s.len(),
    ensures
        i <= text_run(s, i).1 <= s.len(),
        i < s.len() && !(s[i] == '{' || s[i] == '}') ==> i < text_run(s, i).1,
        is_escape(s, i) ==> i < text_run(s, i).1,
    decreases s.len() - i,
{
    if i < s.len() {
        if is_escape(s, i) {
            lemma_text_run_bounds(s, i + 2);
        } else if !(s[i] == '{' || s[i] == '}') {
            lemma_text_run_bounds(s, i + 1);
        }
    }
}

pub proof fn lemma_close_of_bounds(s: Seq<char>, k: int)
    requires
        0 <= k <= s.len(),
    ensures
        k <= close_of(s, k) <= s.len(),
        close_of(s, k) < s.len() ==> s[close_of(s, k)] == '}',
    decreases s.len() - k,
{
    if k < s.len() && s[k] != '}' {
        lemma_close_of_bounds(s, k + 1);
    }
}

/// Every token of a non-empty rest of input moves the scan forward.
pub proof fn lemma_next_token_advances(s: Seq<char>, i: int)
    requires
        0 <= i < s.len(),
    ensures
        next_token(s, i) matches Some((t, j)) && i < j <= s.len(),
{
    lemma_text_run_bounds(s, i);
    lemma_close_of_bounds(s, i + 1);
}

/// Relies on `String::push`: the character is appended at the end.
#[verifier::external_body]
fn push_char(s: &mut String, c: char)
    ensures
        final(s)@ == old(s)@.push(c),
{
    s.push(c)
}

/// The characters `chars[from..to]` as a string.
fn collect(chars: &Vec<char>, from: usize, to: usize) -> (r: String)
    requires
        from <= to <= chars.len(),
    ensures
        r@ == chars@.subrange(from as int, to as int),
{
    let mut r = String::new();
    let mut k: usize = from;
    while k < to
        invariant
            from <= k <= to <= chars.len(),
            r@ == chars@.subrange(from as int, k as int),
        decreases to - k,
    {
        push_char(&mut r, chars[k]);
        k = k + 1;
    }
    r
}

/// A one-shot scanner over a format string, yielding one token per call.
pub struct Parser {
    chars: Vec<char>,
    pos: usize,
}

impl Parser {
    /// The characters being scanned.
    pub closed spec fn source(&self) -> Seq<char> {
        self.chars@
    }

    /// The index where the next token starts.
    pub closed spec fn pos(&self) -> int {
        self.pos as int
    }

    pub open spec fn wf(&self) -> bool {
        0 <= self.pos() <= self.source().len()
    }

    /// The tokens that the remaining calls of [`Parser::next`] yield.
    pub open spec fn remaining(&self) -> Seq<RawToken> {
        tokens_from(self.source(), self.pos())
    }

    pub fn new(format: &str) -> (p: Parser)
        ensures
            p.wf(),
            p.source() == format@,
            p.pos() == 0,
    {
        let mut chars: Vec<char> = Vec::new();
        for c in it: format.chars()
            invariant
                chars@ == it.seq().subrange(0, it.index()),
                it.seq() == format@,
        {
            chars.push(c);
        }
        Parser { chars, pos: 0 }
    }

    /// Yields the token that starts at the scan position and moves past it.
    pub fn next(&mut self) -> (r: Option<RawChunk>)
        requires
            old(self).wf(),
        ensures
            final(self).wf(),
            final(self).source() == old(self).source(),
            match next_token(old(self).source(), old(self).pos()) {
                None => r is None && final(self).pos() == old(self).pos(),
                Some((t, j)) => r matches Some(c) && c@ == t && final(self).pos() == j,
            },
    {
        let ghost s = self.chars@;
        let n: usize = self.chars.len();
        let i: usize = self.pos;
        if i >= n {
            return None;
        }
        let c = self.chars[i];
        let escaped = i + 1 < n && self.chars[i + 1] == c;
        if c == '{' && !escaped {
            let mut k: usize = i + 1;
            while k < n && self.chars[k] != '}'
                invariant
                    i + 1 <= k <= n,
                    n == s.len(),
                    s == self.chars@,
                    close_of(s, i + 1) == close_of(s, k as int),
                decreases n - k,
            {
                k = k + 1;
            }
            if k < n {
                let name = collect(&self.chars, i + 1, k);
                self.pos = k + 1;
                Some(RawChunk::Argument(name))
            } else {
                let mut message = String::from_str("expected '}' to close `");
                message.append(collect(&self.chars, i, n).as_str());
                message.append("`");
                self.pos = n;
                Some(RawChunk::Error(message))
            }
        } else if c == '}' && !escaped {
            let mut message = String::from_str("unexpected '}' at `");
            message.append(collect(&self.chars, i, n).as_str());
            message.append("`");
            self.pos = n;
            Some(RawChunk::Error(message))
        } else {
            let mut text = String::new();
            let mut k: usize = i;
            loop
                invariant
                    i <= k <= n,
                    n == s.len(),
                    s == self.chars@,
                    text_run(s, i as int).0 == text@ + text_run(s, k as int).0,
                    text_run(s, i as int).1 == text_run(s, k as int).1,
                ensures
                    text_run(s, k as int).0 == Seq::<char>::empty(),
                    text_run(s, k as int).1 == k,
                decreases n - k,
            {
                if k >= n {
                    break;
                }
                let d = self.chars[k];
                if d == '{' || d == '}' {
                    if k + 1 < n && self.chars[k + 1] == d {
                        assert(text_run(s, k as int).0 == seq![d] + text_run(s, k + 2).0);
                        push_char(&mut text, d);
                        k = k + 2;
                    } else {
                        break;
                    }
                } else {
                    push_char(&mut text, d);
                    k = k + 1;
                }
                assert(text_run(s, i as int).0 =~= text@ + text_run(s, k as int).0);
            }
            assert(text_run(s, i as int).0 =~= text@);
            self.pos = k;
            Some(RawChunk::Text(text))
        }
    }
}

} // verus!
