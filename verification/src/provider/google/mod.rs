//! Google Gemini: the structures of its responses and their conversion to
//! the generic response.
pub mod vertex_ai;

use crate::provider::api::{
    ProviderCompletionResponse, ProviderResponseChoice, ProviderResponseConverter,
    ProviderResponseMessage,
};
use crate::text::{chars_of, push_all, string_of};
use vstd::prelude::*;

verus! {

/// The top-level response from Google Gemini.
#[derive(Debug)]
pub struct GeminiResponse {
    pub model: Option<String>,
    pub candidates: Vec<Candidate>,
    pub prompt_feedback: Option<PromptFeedback>,
}

/// A candidate answer, like an OpenAI choice.
#[derive(Debug)]
pub struct Candidate {
    pub content: Content,
    pub finish_reason: Option<String>,
    pub index: Option<i32>,
    pub safety_ratings: Vec<SafetyRating>,
}

/// The content of a candidate, in parts.
#[derive(Debug)]
pub struct Content {
    pub parts: Option<Vec<Part>>,
    pub role: GeminiRole,
}

/// A part of a content.
#[derive(Debug)]
pub struct Part {
    pub text: String,
}

/// Feedback on the prompt.
#[derive(Debug)]
pub struct PromptFeedback {
    pub safety_ratings: Vec<SafetyRating>,
}

/// A Google safety rating.
#[derive(Debug)]
pub struct SafetyRating {
    pub category: String,
    pub probability: String,
}

/// The role of a Gemini content: the user or the model.
#[derive(Clone, Copy, Debug, PartialEq, Eq, Structural)]
pub enum GeminiRole {
    User,
    Model,
}

/// `ts` joined with `sep` between consecutive elements.
pub open spec fn join(ts: Seq<Seq<char>>, sep: Seq<char>) -> Seq<char>
    decreases ts.len(),
{
    if ts.len() == 0 {
        Seq::empty()
    } else if ts.len() == 1 {
        ts[0]
    } else {
        join(ts.drop_last(), sep) + sep + ts.last()
    }
}

/// The texts of a content's parts (none when it has no parts).
pub open spec fn content_texts(c: Content) -> Seq<Seq<char>> {
    match c.parts {
        Some(ps) => ps@.map_values(|p: Part| p.text@),
        None => Seq::empty(),
    }
}

/// The texts of the candidates' parts, in order.
pub open spec fn candidates_texts(cs: Seq<Candidate>) -> Seq<Seq<char>>
    decreases cs.len(),
{
    if cs.len() == 0 {
        Seq::empty()
    } else {
        candidates_texts(cs.drop_last()) + content_texts(cs.last().content)
    }
}

/// Appends the texts of a candidate's parts to `out`.
pub(crate) fn push_candidate_texts(out: &mut Vec<String>, candidates: &Vec<Candidate>)
    ensures
        final(out)@.map_values(|s: String| s@) == old(out)@.map_values(|s: String| s@) + candidates_texts(candidates@),
{
    let ghost o0 = out@.map_values(|s: String| s@);
    let mut i: usize = 0;
    assert(candidates@.take(0) =~= Seq::<Candidate>::empty());
    assert(o0 + candidates_texts(Seq::<Candidate>::empty()) =~= o0);
    while i < candidates.len()
        invariant
            i <= candidates@.len(),
            out@.map_values(|s: String| s@) == o0 + candidates_texts(candidates@.take(i as int)),
        decreases candidates@.len() - i,
    {
        assert(candidates@.take(i + 1).drop_last() =~= candidates@.take(i as int));
        let ghost before = out@.map_values(|s: String| s@);
        match &candidates[i].content.parts {
            Some(parts) => {
                let mut j: usize = 0;
                while j < parts.len()
                    invariant
                        j <= parts@.len(),
                        out@.map_values(|s: String| s@) == before + parts@.take(j as int).map_values(|p: Part| p.text@),
                    decreases parts@.len() - j,
                {
                    let ghost old_mv = out@.map_values(|s: String| s@);
                    let t = parts[j].text.clone();
                    out.push(t);
                    assert(out@.map_values(|s: String| s@) =~= old_mv.push(parts@[j as int].text@));
                    assert(parts@.take(j + 1).map_values(|p: Part| p.text@) =~= parts@.take(j as int).map_values(|p: Part| p.text@).push(parts@[j as int].text@));
                    assert(out@.map_values(|s: String| s@) =~= before + parts@.take(j + 1).map_values(|p: Part| p.text@));
                    j = j + 1;
                }
                assert(parts@.take(j as int) =~= parts@);
            },
            None => {
                assert(content_texts(candidates@[i as int].content) =~= Seq::<Seq<char>>::empty());
            },
        }
        assert(out@.map_values(|s: String| s@) =~= o0 + candidates_texts(candidates@.take(i + 1)));
        i = i + 1;
    }
    assert(candidates@.take(i as int) =~= candidates@);
}

/// The texts joined with line breaks.
pub(crate) fn join_lines(texts: &Vec<String>) -> (r: String)
    ensures
        r@ == join(texts@.map_values(|s: String| s@), seq!['\n']),
{
    let ghost ts = texts@.map_values(|s: String| s@);
    let mut out: Vec<char> = Vec::new();
    let mut i: usize = 0;
    assert(ts.take(0) =~= Seq::<Seq<char>>::empty());
    while i < texts.len()
        invariant
            i <= texts@.len(),
            ts == texts@.map_values(|s: String| s@),
            out@ == join(ts.take(i as int), seq!['\n']),
        decreases texts@.len() - i,
    {
        assert(ts.take(i + 1).drop_last() =~= ts.take(i as int));
        if i > 0 {
            out.push('\n');
        }
        let t = chars_of(texts[i].as_str());
        push_all(&mut out, &t);
        proof {
            if i == 0 {
                assert(out@ =~= ts.take(1)[0]);
            } else {
                assert(out@ =~= join(ts.take(i as int), seq!['\n']) + seq!['\n'] + ts.take(i + 1).last());
            }
        }
        i = i + 1;
    }
    assert(ts.take(i as int) =~= ts);
    string_of(&out)
}

/// Converts Gemini responses to the generic one.
pub struct GeminiResponseConverter {
    pub model: String,
}

/// What `serde_json::to_string` writes for a string: the JSON string
/// literal, in double quotes, with the characters that JSON requires escaped.
pub uninterp spec fn json_string_literal_of(s: Seq<char>) -> Seq<char>;

/// Serialises `s` as a JSON string literal with `serde_json::to_string`.
/// The result is named by [`json_string_literal_of`]; `None` where the
/// serialiser reports an error. That it reports none for a string is not
/// stated here.
#[verifier::external_body]
fn json_string_literal(s: &str) -> (r: Option<String>)
    ensures
        r matches Some(t) ==> t@ == json_string_literal_of(s@),
{
    serde_json::to_string(s).ok()
}

/// A message part of a Gemini request, as compact JSON text: the array
/// `[{"text":<literal>}]` around a JSON string literal.
pub open spec fn part_text_of(literal: Seq<char>) -> Seq<char> {
    seq!['[', '{', '"', 't', 'e', 'x', 't', '"', ':'] + literal + seq!['}', ']']
}

/// Frames a JSON string literal as the text of a Gemini message part.
pub fn part_text_from_literal(literal: &str) -> (r: String)
    ensures
        r@ == part_text_of(literal@),
{
    let mut out: Vec<char> = Vec::new();
    out.push('[');
    out.push('{');
    out.push('"');
    out.push('t');
    out.push('e');
    out.push('x');
    out.push('t');
    out.push('"');
    out.push(':');
    let lit = chars_of(literal);
    push_all(&mut out, &lit);
    out.push('}');
    out.push(']');
    assert(out@ =~= part_text_of(literal@));
    string_of(&out)
}

/// The text of a message part of a Gemini request for `content`:
/// `[{"text":...}]` with the content written as a JSON string literal by
/// `serde_json`; `None` where the serialiser fails.
pub fn gemini_part_text(content: &str) -> (r: Option<String>)
    ensures
        r matches Some(t) ==> t@ == part_text_of(json_string_literal_of(content@)),
{
    match json_string_literal(content) {
        Some(literal) => Some(part_text_from_literal(&literal)),
        None => None,
    }
}

impl ProviderResponseConverter<GeminiResponse> for GeminiResponseConverter {
    fn new(model: String) -> (r: Self)
        ensures
            r.model == model,
    {
        GeminiResponseConverter { model }
    }

    /// The generic response: no id, this converter's model, and one choice
    /// holding the texts of all parts of all candidates, one per line.
    fn to_generic_provider_response(&self, google_response: &GeminiResponse) -> (r: ProviderCompletionResponse)
        ensures
            r.id@ == Seq::<char>::empty(),
            r.model@ == self.model@,
            r.choices@.len() == 1,
            r.choices@[0].message.content@ == join(candidates_texts(google_response.candidates@), seq!['\n']),
    {
        let mut messages: Vec<String> = Vec::new();
        push_candidate_texts(&mut messages, &google_response.candidates);
        assert(messages@.map_values(|s: String| s@) =~= candidates_texts(google_response.candidates@));
        let content = join_lines(&messages);
        let mut choices: Vec<ProviderResponseChoice> = Vec::new();
        choices.push(ProviderResponseChoice { message: ProviderResponseMessage { content } });
        ProviderCompletionResponse { id: String::new(), model: self.model.clone(), choices }
    }
}

} // verus!
