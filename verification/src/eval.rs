//! The template evaluator: walking a compiled element sequence against
//! one metadata record, concatenating output, and surfacing the first
//! missing field.

use vstd::prelude::*;
use vstd::string::StringExecFns;

use crate::error::EvalError;
use crate::field::Field;
use crate::numeral::decimal_string;
use crate::numeral::spec_decimal;
use crate::record::MetadataRecord;
use crate::record::SpecRecord;
use crate::template::CompiledTemplate;
use crate::template::Element;
use crate::template::SpecElement;
use crate::template::Token;
use crate::field::spec_key_field;
use crate::template::spec_compile;
use crate::template::spec_elements;
use crate::template::spec_tokens;
use crate::template::tokens_text;
use crate::template::lemma_full_coverage;

verus! {

/// The resolved string representation of `f` against record `r`, if the
/// record has the value: the album title, artist and title verbatim, and
/// track number and year in canonical decimal.
pub open spec fn spec_resolve(f: Field, r: SpecRecord) -> Option<Seq<char>> {
    match f {
        Field::Album => r.album,
        Field::Artist => r.artist,
        Field::Title => r.title,
        Field::Track => match r.track {
            Some(n) => Some(spec_decimal(n as nat)),
            None => None,
        },
        Field::Year => match r.year {
            Some(n) => Some(spec_decimal(n as nat)),
            None => None,
        },
    }
}

/// What evaluating elements `es` against record `r` yields: the
/// concatenation, in element order, of literal text and resolved field
/// values — or the first field, in left-to-right order, that the record
/// lacks.
pub open spec fn spec_evaluate(es: Seq<SpecElement>, r: SpecRecord) -> Result<Seq<char>, Field>
    decreases es.len(),
{
    if es.len() == 0 {
        Ok(Seq::empty())
    } else {
        match es[0] {
            SpecElement::Literal(t) => match spec_evaluate(es.drop_first(), r) {
                Ok(rest) => Ok(t + rest),
                Err(f) => Err(f),
            },
            SpecElement::FieldRef(f) => match spec_resolve(f, r) {
                Some(v) => match spec_evaluate(es.drop_first(), r) {
                    Ok(rest) => Ok(v + rest),
                    Err(g) => Err(g),
                },
                None => Err(f),
            },
        }
    }
}

impl Field {
    /// Resolves this field against `record`, or reports it missing.
    pub fn resolve(self, record: &MetadataRecord) -> (r: Result<String, EvalError>)
        ensures
            match r {
                Ok(s) => spec_resolve(self, record@) == Some(s@),
                Err(e) => e == EvalError::MissingField(self) && spec_resolve(self, record@)
                    is None,
            },
    {
        match self {
            Field::Album => match &record.album {
                Some(s) => Ok(s.clone()),
                None => Err(EvalError::MissingField(self)),
            },
            Field::Artist => match &record.artist {
                Some(s) => Ok(s.clone()),
                None => Err(EvalError::MissingField(self)),
            },
            Field::Title => match &record.title {
                Some(s) => Ok(s.clone()),
                None => Err(EvalError::MissingField(self)),
            },
            Field::Track => match record.track {
                Some(n) => Ok(decimal_string(n)),
                None => Err(EvalError::MissingField(self)),
            },
            Field::Year => match record.year {
                Some(n) => Ok(decimal_string(n)),
                None => Err(EvalError::MissingField(self)),
            },
        }
    }
}

/// Evaluates a compiled template against one record, concatenating
/// literal text and resolved field values in element order; fails fast
/// with the first missing field, producing no partial output.
pub fn evaluate(template: &CompiledTemplate, record: &MetadataRecord) -> (r: Result<
    String,
    EvalError,
>)
    ensures
        match r {
            Ok(s) => spec_evaluate(template@, record@) == Ok::<Seq<char>, Field>(s@),
            Err(e) => spec_evaluate(template@, record@) == Err::<Seq<char>, Field>(e@),
        },
{
    let ghost es = template@;
    let ghost rec = record@;
    let n = template.elements.len();
    let mut out = String::new();
    let mut i: usize = 0;
    proof {
        assert(es.skip(0) =~= es);
        let whole = spec_evaluate(es, rec);
        if whole is Ok {
            assert(Seq::<char>::empty() + whole->Ok_0 =~= whole->Ok_0);
        }
    }
    while i < n
        invariant
            es == template@,
            rec == record@,
            n == template.elements.len(),
            n == es.len(),
            i <= n,
            spec_evaluate(es, rec) == (match spec_evaluate(es.skip(i as int), rec) {
                Ok(rest) => Ok::<Seq<char>, Field>(out@ + rest),
                Err(f) => Err::<Seq<char>, Field>(f),
            }),
        decreases n - i,
    {
        proof {
            assert(es.skip(i as int)[0] == es[i as int]);
            assert(es.skip(i as int).drop_first() =~= es.skip(i as int + 1));
        }
        let elem = &template.elements[i];
        match elem {
            Element::Literal(t) => {
                let ghost prev = out@;
                out.append(t.as_str());
                proof {
                    let rest_r = spec_evaluate(es.skip(i as int + 1), rec);
                    if rest_r is Ok {
                        let rest = rest_r->Ok_0;
                        assert(prev + (t@ + rest) =~= (prev + t@) + rest);
                    }
                }
            },
            Element::FieldRef(f) => {
                match f.resolve(record) {
                    Ok(v) => {
                        let ghost prev = out@;
                        out.append(v.as_str());
                        proof {
                            let rest_r = spec_evaluate(es.skip(i as int + 1), rec);
                            if rest_r is Ok {
                                let rest = rest_r->Ok_0;
                                assert(prev + (v@ + rest) =~= (prev + v@) + rest);
                            }
                        }
                    },
                    Err(e) => {
                        proof {
                            assert(spec_evaluate(es.skip(i as int), rec) == Err::<
                                Seq<char>,
                                Field,
                            >(*f));
                        }
                        return Err(e);
                    },
                }
            },
        }
        i = i + 1;
    }
    proof {
        assert(es.skip(n as int) =~= Seq::<SpecElement>::empty());
        assert(out@ + Seq::<char>::empty() =~= out@);
    }
    Ok(out)
}

proof fn lemma_literal_eval_from(ts: Seq<Token>, es: Seq<SpecElement>, r: SpecRecord)
    requires
        spec_elements(ts) == Ok::<Seq<SpecElement>, Seq<char>>(es),
        forall|i: int| 0 <= i < es.len() ==> es[i] is Literal,
    ensures
        spec_evaluate(es, r) == Ok::<Seq<char>, Field>(tokens_text(ts)),
    decreases ts.len(),
{
    if ts.len() == 0 {
        assert(es =~= Seq::<SpecElement>::empty());
    } else {
        match ts[0] {
            Token::LiteralToken(t) => {
                let rest_r = spec_elements(ts.drop_first());
                let rest = rest_r->Ok_0;
                assert(es == seq![SpecElement::Literal(t)] + rest);
                assert forall|j: int| 0 <= j < rest.len() implies rest[j] is Literal by {
                    assert(rest[j] == (seq![SpecElement::Literal(t)] + rest)[j + 1]);
                    assert(es[j + 1] is Literal);
                }
                lemma_literal_eval_from(ts.drop_first(), rest, r);
                assert(es[0] == SpecElement::Literal(t));
                assert(es.drop_first() =~= rest);
            },
            Token::FieldToken(k) => {
                match spec_key_field(k) {
                    Some(f) => {
                        let rest_r = spec_elements(ts.drop_first());
                        let rest = rest_r->Ok_0;
                        assert(es == seq![SpecElement::FieldRef(f)] + rest);
                        assert(es[0] is Literal);
                        assert(false);
                    },
                    None => {
                        assert(false);
                    },
                }
            },
        }
    }
}

/// LAW (round-trip concatenation): a template whose compiled form holds
/// no field references evaluates, against every record, to the template
/// string itself.
pub proof fn lemma_round_trip(s: Seq<char>, es: Seq<SpecElement>, r: SpecRecord)
    requires
        spec_compile(s) == Ok::<Seq<SpecElement>, Seq<char>>(es),
        forall|i: int| 0 <= i < es.len() ==> es[i] is Literal,
    ensures
        spec_evaluate(es, r) == Ok::<Seq<char>, Field>(s),
{
    lemma_literal_eval_from(spec_tokens(s), es, r);
    lemma_full_coverage(s);
}

} // verus!
