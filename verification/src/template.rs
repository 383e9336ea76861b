//! The template compiler: tokenizing a raw template string and turning
//! its tokens into typed elements.
//!
//! The grammar is flat.  Scanning left to right, at each position a
//! field-reference token is attempted first: a `%` immediately followed
//! by one or more lowercase ASCII letters, consumed maximally.  Failing
//! that, a literal token consumes the character at hand (even a `%` with
//! no following lowercase letter) together with the longest following
//! `%`-free run.  Every character of the input thus belongs to exactly
//! one token.

use vstd::prelude::*;
use vstd::string::StrSliceExecFns;

use crate::error::CompileError;
use crate::field::Field;
use crate::field::spec_key_field;

verus! {

/// True of the lowercase ASCII letters `a` through `z`, the only
/// characters a field key may contain.
pub open spec fn is_lower(c: char) -> bool {
    'a' as u32 <= c as u32 && c as u32 <= 'z' as u32
}

/// Whether `c` is a lowercase ASCII letter.
fn is_lower_char(c: char) -> (r: bool)
    ensures
        r == is_lower(c),
{
    'a' as u32 <= c as u32 && c as u32 <= 'z' as u32
}

/// Where the run of lowercase letters starting at `i` ends: the first
/// position at or after `i` that is past the end of `s` or holds a
/// non-lowercase character.
pub open spec fn lower_end(s: Seq<char>, i: int) -> int
    decreases s.len() - i,
{
    if i < s.len() && 0 <= i && is_lower(s[i]) {
        lower_end(s, i + 1)
    } else {
        i
    }
}

/// Where the literal run continuing at `i` ends: the first position at
/// or after `i` that is past the end of `s` or holds a `%`.
pub open spec fn literal_end(s: Seq<char>, i: int) -> int
    decreases s.len() - i,
{
    if i < s.len() && 0 <= i && s[i] != '%' {
        literal_end(s, i + 1)
    } else {
        i
    }
}

/// The end of a lowercase run lies between its start and the end of `s`.
pub proof fn lemma_lower_end_bounds(s: Seq<char>, i: int)
    requires
        0 <= i <= s.len(),
    ensures
        i <= lower_end(s, i) <= s.len(),
    decreases s.len() - i,
{
    if i < s.len() && is_lower(s[i]) {
        lemma_lower_end_bounds(s, i + 1);
    }
}

/// The end of a literal run lies between its start and the end of `s`.
pub proof fn lemma_literal_end_bounds(s: Seq<char>, i: int)
    requires
        0 <= i <= s.len(),
    ensures
        i <= literal_end(s, i) <= s.len(),
    decreases s.len() - i,
{
    if i < s.len() && s[i] != '%' {
        lemma_literal_end_bounds(s, i + 1);
    }
}

/// One maximal token of the template grammar.
pub enum Token {
    /// A `%` plus a run of lowercase letters; carries the key without
    /// the `%`.
    FieldToken(Seq<char>),
    /// A literal span; carries its text verbatim.
    LiteralToken(Seq<char>),
}

/// Whether position `i` of `s` starts a field-reference token: a `%`
/// immediately followed by at least one lowercase letter.
pub open spec fn starts_field(s: Seq<char>, i: int) -> bool {
    &&& 0 <= i < s.len()
    &&& s[i] == '%'
    &&& i + 1 < s.len()
    &&& is_lower(s[i + 1])
}

/// The maximal tokens of `s` from position `i` on.
pub open spec fn spec_tokens_from(s: Seq<char>, i: int) -> Seq<Token>
    decreases s.len() - i,
{
    if i < 0 || i >= s.len() {
        Seq::empty()
    } else if starts_field(s, i) {
        let e = lower_end(s, i + 1);
        proof {
            lemma_lower_end_bounds(s, i + 1);
        }
        seq![Token::FieldToken(s.subrange(i + 1, e))] + spec_tokens_from(s, e)
    } else {
        let e = literal_end(s, i + 1);
        proof {
            lemma_literal_end_bounds(s, i + 1);
        }
        seq![Token::LiteralToken(s.subrange(i, e))] + spec_tokens_from(s, e)
    }
}

/// The maximal, non-overlapping tokens of the whole template `s`, in
/// left-to-right order.
pub open spec fn spec_tokens(s: Seq<char>) -> Seq<Token> {
    spec_tokens_from(s, 0)
}

/// The verbatim text a token covers in the template: a field token
/// covers its `%` and its key, a literal token its text.
pub open spec fn token_text(t: Token) -> Seq<char> {
    match t {
        Token::FieldToken(k) => seq!['%'] + k,
        Token::LiteralToken(x) => x,
    }
}

/// The concatenation of the text covered by each token, in order.
pub open spec fn tokens_text(ts: Seq<Token>) -> Seq<char>
    decreases ts.len(),
{
    if ts.len() == 0 {
        Seq::empty()
    } else {
        token_text(ts[0]) + tokens_text(ts.drop_first())
    }
}

proof fn lemma_tokens_cover_from(s: Seq<char>, i: int)
    requires
        0 <= i <= s.len(),
    ensures
        tokens_text(spec_tokens_from(s, i)) == s.subrange(i, s.len() as int),
    decreases s.len() - i,
{
    if i >= s.len() {
        assert(s.subrange(i, s.len() as int) =~= Seq::<char>::empty());
    } else if starts_field(s, i) {
        let e = lower_end(s, i + 1);
        lemma_lower_end_bounds(s, i + 1);
        lemma_tokens_cover_from(s, e);
        let ts = spec_tokens_from(s, i);
        assert(ts.drop_first() =~= spec_tokens_from(s, e));
        assert(seq!['%'] + s.subrange(i + 1, e) =~= s.subrange(i, e));
        assert(s.subrange(i, e) + s.subrange(e, s.len() as int) =~= s.subrange(
            i,
            s.len() as int,
        ));
    } else {
        let e = literal_end(s, i + 1);
        lemma_literal_end_bounds(s, i + 1);
        lemma_tokens_cover_from(s, e);
        let ts = spec_tokens_from(s, i);
        assert(ts.drop_first() =~= spec_tokens_from(s, e));
        assert(s.subrange(i, e) + s.subrange(e, s.len() as int) =~= s.subrange(
            i,
            s.len() as int,
        ));
    }
}

/// LAW (full coverage): the tokens of a template cover it exactly —
/// concatenating, in order, the text covered by each token reconstructs
/// the template string, so every character belongs to exactly one token.
pub proof fn lemma_full_coverage(s: Seq<char>)
    ensures
        tokens_text(spec_tokens(s)) == s,
{
    lemma_tokens_cover_from(s, 0);
    assert(s.subrange(0, s.len() as int) =~= s);
}

/// One compiled element of a template.
#[derive(Debug, Clone, PartialEq, Eq)]
pub enum Element {
    /// Verbatim text to emit.
    Literal(String),
    /// A placeholder resolved against the record at evaluation time.
    FieldRef(Field),
}

/// The mathematical model of an [`Element`].
pub enum SpecElement {
    Literal(Seq<char>),
    FieldRef(Field),
}

impl View for Element {
    type V = SpecElement;

    open spec fn view(&self) -> SpecElement {
        match self {
            Element::Literal(t) => SpecElement::Literal(t@),
            Element::FieldRef(f) => SpecElement::FieldRef(*f),
        }
    }
}

/// The models of a sequence of elements, in order.
pub open spec fn elements_view(es: Seq<Element>) -> Seq<SpecElement> {
    Seq::new(es.len(), |i: int| es[i]@)
}

/// A compiled template: its elements in left-to-right source order.
/// Created once per template string and immutable thereafter; evaluation
/// only reads it.
#[derive(Debug, Clone, PartialEq, Eq)]
pub struct CompiledTemplate {
    /// The elements, in the order their tokens occur in the template.
    pub elements: Vec<Element>,
}

impl View for CompiledTemplate {
    type V = Seq<SpecElement>;

    open spec fn view(&self) -> Seq<SpecElement> {
        elements_view(self.elements@)
    }
}

/// The element each token becomes, or the first unknown field key: a
/// literal token becomes its literal, a field token whose key is in the
/// closed set becomes a field reference, and the leftmost field token
/// with an unrecognized key fails the whole template.
pub open spec fn spec_elements(ts: Seq<Token>) -> Result<Seq<SpecElement>, Seq<char>>
    decreases ts.len(),
{
    if ts.len() == 0 {
        Ok(Seq::empty())
    } else {
        match ts[0] {
            Token::LiteralToken(t) => match spec_elements(ts.drop_first()) {
                Ok(rest) => Ok(seq![SpecElement::Literal(t)] + rest),
                Err(k) => Err(k),
            },
            Token::FieldToken(k) => match spec_key_field(k) {
                Some(f) => match spec_elements(ts.drop_first()) {
                    Ok(rest) => Ok(seq![SpecElement::FieldRef(f)] + rest),
                    Err(k2) => Err(k2),
                },
                None => Err(k),
            },
        }
    }
}

/// What compiling `s` yields: the elements of its tokens, or the first
/// unknown field key in left-to-right order.
pub open spec fn spec_compile(s: Seq<char>) -> Result<Seq<SpecElement>, Seq<char>> {
    spec_elements(spec_tokens(s))
}

/// LAW (idempotent compilation): what a template compiles to is a
/// function of the template text alone, so compiling equal template
/// strings yields structurally equal element sequences.
pub proof fn lemma_compile_deterministic(s1: Seq<char>, s2: Seq<char>)
    requires
        s1 == s2,
    ensures
        spec_compile(s1) == spec_compile(s2),
{
}

/// Whether a token covers at least one character of the template: a
/// literal token holds at least one character, a field token a key of at
/// least one letter.
pub open spec fn token_nonempty(t: Token) -> bool {
    match t {
        Token::FieldToken(k) => k.len() >= 1,
        Token::LiteralToken(x) => x.len() >= 1,
    }
}

proof fn lemma_tokens_nonempty_from(s: Seq<char>, i: int)
    requires
        0 <= i <= s.len(),
    ensures
        forall|j: int|
            0 <= j < spec_tokens_from(s, i).len() ==> token_nonempty(spec_tokens_from(s, i)[j]),
    decreases s.len() - i,
{
    let ts = spec_tokens_from(s, i);
    if i >= s.len() {
    } else if starts_field(s, i) {
        let e = lower_end(s, i + 1);
        lemma_lower_end_bounds(s, i + 2);
        assert(e == lower_end(s, i + 2));
        lemma_tokens_nonempty_from(s, e);
        assert(ts.drop_first() =~= spec_tokens_from(s, e));
        assert forall|j: int| 0 <= j < ts.len() implies token_nonempty(ts[j]) by {
            if j == 0 {
                assert(token_nonempty(Token::FieldToken(s.subrange(i + 1, e))));
            } else {
                assert(ts[j] == spec_tokens_from(s, e)[j - 1]);
            }
        }
    } else {
        let e = literal_end(s, i + 1);
        lemma_literal_end_bounds(s, i + 1);
        lemma_tokens_nonempty_from(s, e);
        assert(ts.drop_first() =~= spec_tokens_from(s, e));
        assert forall|j: int| 0 <= j < ts.len() implies token_nonempty(ts[j]) by {
            if j == 0 {
                assert(token_nonempty(Token::LiteralToken(s.subrange(i, e))));
            } else {
                assert(ts[j] == spec_tokens_from(s, e)[j - 1]);
            }
        }
    }
}

/// The tokenizer never emits an empty token.
pub proof fn lemma_tokens_nonempty(s: Seq<char>)
    ensures
        forall|j: int| 0 <= j < spec_tokens(s).len() ==> token_nonempty(spec_tokens(s)[j]),
{
    lemma_tokens_nonempty_from(s, 0);
}

/// Whether element `e` is the compiled form of token `t`: a literal
/// token's text kept verbatim, or a field token's key resolved in the
/// closed field set.
pub open spec fn element_matches_token(e: SpecElement, t: Token) -> bool {
    match t {
        Token::LiteralToken(x) => e == SpecElement::Literal(x),
        Token::FieldToken(k) => match spec_key_field(k) {
            Some(f) => e == SpecElement::FieldRef(f),
            None => false,
        },
    }
}

proof fn lemma_elements_match_tokens(ts: Seq<Token>, es: Seq<SpecElement>)
    requires
        spec_elements(ts) == Ok::<Seq<SpecElement>, Seq<char>>(es),
    ensures
        es.len() == ts.len(),
        forall|i: int| 0 <= i < ts.len() ==> element_matches_token(es[i], ts[i]),
    decreases ts.len(),
{
    if ts.len() == 0 {
        assert(es =~= Seq::<SpecElement>::empty());
    } else {
        let rest_r = spec_elements(ts.drop_first());
        let rest = rest_r->Ok_0;
        match ts[0] {
            Token::LiteralToken(t) => {
                assert(es == seq![SpecElement::Literal(t)] + rest);
                lemma_elements_match_tokens(ts.drop_first(), rest);
                assert forall|i: int| 0 <= i < ts.len() implies element_matches_token(
                    es[i],
                    ts[i],
                ) by {
                    if i == 0 {
                        assert(es[0] == SpecElement::Literal(t));
                    } else {
                        assert(es[i] == rest[i - 1]);
                        assert(ts[i] == ts.drop_first()[i - 1]);
                        assert(element_matches_token(rest[i - 1], ts.drop_first()[i - 1]));
                    }
                }
            },
            Token::FieldToken(k) => {
                match spec_key_field(k) {
                    Some(f) => {
                        assert(es == seq![SpecElement::FieldRef(f)] + rest);
                        lemma_elements_match_tokens(ts.drop_first(), rest);
                        assert forall|i: int| 0 <= i < ts.len() implies element_matches_token(
                            es[i],
                            ts[i],
                        ) by {
                            if i == 0 {
                                assert(es[0] == SpecElement::FieldRef(f));
                            } else {
                                assert(es[i] == rest[i - 1]);
                                assert(ts[i] == ts.drop_first()[i - 1]);
                                assert(element_matches_token(rest[i - 1], ts.drop_first()[i - 1]));
                            }
                        }
                    },
                    None => {
                        assert(false);
                    },
                }
            },
        }
    }
}

/// LAW (full coverage): a template that compiles has exactly one element
/// per token, each the compiled form of its token; and the tokens cover
/// the template exactly, so every character of the input belongs to
/// exactly one element's source text.
pub proof fn lemma_compile_covers(s: Seq<char>, es: Seq<SpecElement>)
    requires
        spec_compile(s) == Ok::<Seq<SpecElement>, Seq<char>>(es),
    ensures
        es.len() == spec_tokens(s).len(),
        tokens_text(spec_tokens(s)) == s,
        forall|i: int| 0 <= i < es.len() ==> element_matches_token(es[i], spec_tokens(s)[i]),
{
    lemma_elements_match_tokens(spec_tokens(s), es);
    lemma_full_coverage(s);
}

/// A compiled template holds no empty literal: the tokenizer never emits
/// a zero-length literal span.
pub proof fn lemma_no_empty_literals(s: Seq<char>, es: Seq<SpecElement>)
    requires
        spec_compile(s) == Ok::<Seq<SpecElement>, Seq<char>>(es),
    ensures
        forall|i: int|
            0 <= i < es.len() ==> ((#[trigger] es[i]) matches SpecElement::Literal(t) ==> t.len()
                >= 1),
{
    lemma_compile_covers(s, es);
    lemma_tokens_nonempty(s);
    assert forall|i: int|
        0 <= i < es.len() implies ((#[trigger] es[i]) matches SpecElement::Literal(t) ==> t.len()
        >= 1) by {
        let tok = spec_tokens(s)[i];
        assert(element_matches_token(es[i], tok));
        assert(token_nonempty(tok));
        if es[i] is Literal {
            match tok {
                Token::LiteralToken(x) => {
                    assert(es[i] == SpecElement::Literal(x));
                },
                Token::FieldToken(k) => {
                    assert(false);
                },
            }
        }
    }
}

/// Parses a raw template string into its compiled element sequence, or
/// rejects it at the first field reference whose key is outside the
/// closed set.
pub fn compile(template: &str) -> (r: Result<CompiledTemplate, CompileError>)
    ensures
        match r {
            Ok(ct) => spec_compile(template@) == Ok::<Seq<SpecElement>, Seq<char>>(ct@),
            Err(e) => spec_compile(template@) == Err::<Seq<SpecElement>, Seq<char>>(e@),
        },
{
    let ghost s = template@;
    let n = template.unicode_len();
    let mut elements: Vec<Element> = Vec::new();
    let mut i: usize = 0;
    while i < n
        invariant
            n == s.len(),
            s == template@,
            i <= n,
            spec_compile(s) == (match spec_elements(spec_tokens_from(s, i as int)) {
                Ok(rest) => Ok::<Seq<SpecElement>, Seq<char>>(elements_view(elements@) + rest),
                Err(k) => Err::<Seq<SpecElement>, Seq<char>>(k),
            }),
        decreases n - i,
    {
        let c = template.get_char(i);
        if c == '%' && i + 1 < n && is_lower_char(template.get_char(i + 1)) {
            // A field-reference token: scan the maximal lowercase run.
            let mut j = i + 1;
            while j < n && is_lower_char(template.get_char(j))
                invariant
                    n == s.len(),
                    s == template@,
                    i + 1 <= j <= n,
                    lower_end(s, i as int + 1) == lower_end(s, j as int),
                decreases n - j,
            {
                j = j + 1;
            }
            proof {
                assert(lower_end(s, j as int) == j as int);
                assert(starts_field(s, i as int));
            }
            let key = template.substring_char(i + 1, j);
            let ghost ts = spec_tokens_from(s, i as int);
            proof {
                assert(ts =~= seq![Token::FieldToken(s.subrange(i as int + 1, j as int))]
                    + spec_tokens_from(s, j as int));
                assert(ts.drop_first() =~= spec_tokens_from(s, j as int));
                assert(ts[0] == Token::FieldToken(key@));
            }
            match Field::from_key(key) {
                Some(f) => {
                    let ghost prev = elements_view(elements@);
                    elements.push(Element::FieldRef(f));
                    proof {
                        assert(elements_view(elements@) =~= prev + seq![
                            SpecElement::FieldRef(f),
                        ]);
                        let rest_r = spec_elements(spec_tokens_from(s, j as int));
                        if rest_r is Ok {
                            let rest = rest_r->Ok_0;
                            assert(prev + (seq![SpecElement::FieldRef(f)] + rest) =~= (prev
                                + seq![SpecElement::FieldRef(f)]) + rest);
                        }
                    }
                    i = j;
                },
                None => {
                    proof {
                        assert(spec_elements(ts) == Err::<Seq<SpecElement>, Seq<char>>(key@));
                    }
                    return Err(CompileError::UnknownField(key.to_owned()));
                },
            }
        } else {
            // A literal token: the character at hand plus the maximal
            // following `%`-free run.
            let mut j = i + 1;
            while j < n && template.get_char(j) != '%'
                invariant
                    n == s.len(),
                    s == template@,
                    i + 1 <= j <= n,
                    literal_end(s, i as int + 1) == literal_end(s, j as int),
                decreases n - j,
            {
                j = j + 1;
            }
            proof {
                assert(literal_end(s, j as int) == j as int);
                assert(!starts_field(s, i as int));
            }
            let text = template.substring_char(i, j);
            let ghost ts = spec_tokens_from(s, i as int);
            proof {
                assert(ts =~= seq![Token::LiteralToken(s.subrange(i as int, j as int))]
                    + spec_tokens_from(s, j as int));
                assert(ts.drop_first() =~= spec_tokens_from(s, j as int));
                assert(ts[0] == Token::LiteralToken(text@));
            }
            let ghost prev = elements_view(elements@);
            elements.push(Element::Literal(text.to_owned()));
            proof {
                assert(elements_view(elements@) =~= prev + seq![SpecElement::Literal(text@)]);
                let rest_r = spec_elements(spec_tokens_from(s, j as int));
                if rest_r is Ok {
                    let rest = rest_r->Ok_0;
                    assert(prev + (seq![SpecElement::Literal(text@)] + rest) =~= (prev + seq![
                        SpecElement::Literal(text@),
                    ]) + rest);
                }
            }
            i = j;
        }
    }
    proof {
        assert(spec_tokens_from(s, n as int) =~= Seq::<Token>::empty());
        assert(elements_view(elements@) + Seq::<SpecElement>::empty() =~= elements_view(
            elements@,
        ));
    }
    Ok(CompiledTemplate { elements })
}

} // verus!
