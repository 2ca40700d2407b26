//! The request handler's decisions: the policy check, the composed prompt,
//! the upstream request, and the response heads for refusals and failures.
use vstd::prelude::*;
use vstd::string::StringExecFns;
use crate::persona::{PersonaProfile, PersonaTrait};
use crate::text::{chars_of, contains_phrase, lower_of, lowercase, occurs_in, string_of};

verus! {

/// The prompt used where the client gave none.
pub const DEFAULT_PROMPT: &'static str = "Hello";

/// The upstream model that every request names.
pub const MODEL: &'static str = "mistral";

/// The role of the client's message.
pub const USER_ROLE: &'static str = "user";

pub const FORBIDDEN_STATUS: u16 = 403;

pub const BAD_GATEWAY_STATUS: u16 = 502;

pub const REFUSAL_BODY: &'static str = "Request refused by persona policy";

pub const UPSTREAM_FAILURE_BODY: &'static str = "Upstream service unavailable";

/// One role/content message of a generation request.
pub struct Message {
    pub role: String,
    pub content: String,
}

/// The request sent upstream. Its message list is never empty.
pub struct GenerationRequest {
    pub model: String,
    pub messages: Vec<Message>,
    pub stream: bool,
}

impl GenerationRequest {
    pub open spec fn wf(&self) -> bool {
        self.messages@.len() > 0
    }
}

/// What the handler does with a prompt.
pub enum Plan {
    /// A constraint phrase occurs in the prompt: refuse, call nothing.
    Refuse,
    /// Send this request upstream and stream its reply.
    Forward(GenerationRequest),
}

/// Status and body of a response that carries no stream.
pub struct ResponseHead {
    pub status: u16,
    pub body: String,
}

/// The prompt that the handler works on.
pub open spec fn effective_prompt(prompt: Option<String>) -> Seq<char> {
    match prompt {
        Some(p) => p@,
        None => DEFAULT_PROMPT@,
    }
}

/// Whether some constraint phrase occurs, case-insensitively, in `prompt`.
pub open spec fn violates(prompt: Seq<char>, constraints: Seq<String>) -> bool {
    exists|k: int|
        0 <= k < constraints.len() && occurs_in(
            lower_of(#[trigger] constraints[k]@),
            lower_of(prompt),
        )
}

/// The ASCII digit of `d`, for `d` below 10.
pub open spec fn digit_char(d: nat) -> char {
    ((48 + d) as u8) as char
}

/// The decimal digits of `n`, without leading zeros.
pub open spec fn decimal(n: nat) -> Seq<char>
    decreases n,
{
    if n < 10 {
        seq![digit_char(n)]
    } else {
        decimal(n / 10).push(digit_char(n % 10))
    }
}

/// `parts` with `sep` between each two.
pub open spec fn joined(parts: Seq<Seq<char>>, sep: Seq<char>) -> Seq<char>
    decreases parts.len(),
{
    if parts.len() == 0 {
        seq![]
    } else if parts.len() == 1 {
        parts[0]
    } else {
        joined(parts.drop_last(), sep) + sep + parts.last()
    }
}

/// One trait as the prompt shows it: its name and its intensity in percent.
pub open spec fn trait_text(t: PersonaTrait) -> Seq<char> {
    t.name@ + seq![' '] + decimal(t.level as nat / 10) + seq!['%']
}

pub open spec fn string_views(v: Seq<String>) -> Seq<Seq<char>> {
    v.map_values(|s: String| s@)
}

pub open spec fn char_views(r: Seq<Vec<char>>) -> Seq<Seq<char>> {
    r.map_values(|c: Vec<char>| c@)
}

pub open spec fn trait_texts_of(v: Seq<PersonaTrait>) -> Seq<Seq<char>> {
    v.map_values(|t: PersonaTrait| trait_text(t))
}

pub open spec fn comma() -> Seq<char> {
    seq![',', ' ']
}

/// The persona header placed ahead of the client's text.
pub open spec fn persona_header(p: PersonaProfile) -> Seq<char> {
    PERSONA_OPEN@ + p.name@ + TONE_LABEL@ + p.tone@ + TRAITS_LABEL@ + joined(
        trait_texts_of(p.traits@),
        comma(),
    ) + CONSTRAINTS_LABEL@ + joined(string_views(p.constraints@), comma()) + PHRASES_LABEL@
        + joined(string_views(p.phrases@), comma()) + PERSONA_CLOSE@
}

pub const PERSONA_OPEN: &'static str = "[persona]\nname: ";

pub const TONE_LABEL: &'static str = "\ntone: ";

pub const TRAITS_LABEL: &'static str = "\ntraits: ";

pub const CONSTRAINTS_LABEL: &'static str = "\nconstraints: ";

pub const PHRASES_LABEL: &'static str = "\nsignature phrases: ";

pub const PERSONA_CLOSE: &'static str = "\n[/persona]\n";

/// The decimal digits of `n`.
pub fn decimal_chars(n: u32) -> (r: Vec<char>)
    ensures
        r@ == decimal(n as nat),
    decreases n,
{
    let d = ((n % 10) as u8 + 48u8) as char;
    if n < 10 {
        vec![d]
    } else {
        let mut v = decimal_chars(n / 10);
        v.push(d);
        v
    }
}

/// Appends `parts`, with `sep` between each two, to `out`.
fn push_joined(out: &mut Vec<char>, parts: &Vec<Vec<char>>, sep: &Vec<char>)
    ensures
        final(out)@ == old(out)@ + joined(char_views(parts@), sep@),
{
    let ghost ps = char_views(parts@);
    let ghost start = out@;
    let mut i: usize = 0;
    assert(ps.take(0) =~= Seq::<Seq<char>>::empty());
    assert(start + joined(ps.take(0), sep@) =~= start);
    while i < parts.len()
        invariant
            i <= parts.len(),
            ps == char_views(parts@),
            out@ == start + joined(ps.take(i as int), sep@),
        decreases parts.len() - i,
    {
        let ghost before = out@;
        if i > 0 {
            let mut s = sep.clone();
            out.append(&mut s);
        }
        let mut p = parts[i].clone();
        out.append(&mut p);
        proof {
            let t = ps.take(i + 1);
            assert(t.drop_last() =~= ps.take(i as int));
            assert(t.last() == parts@[i as int]@);
            if i == 0 {
                assert(t.len() == 1);
                assert(out@ =~= start + joined(t, sep@));
            } else {
                assert(out@ =~= start + joined(t, sep@));
            }
        }
        i = i + 1;
    }
    assert(ps.take(parts.len() as int) =~= ps);
}

/// The character vectors of a list of strings.
fn chars_of_all(v: &Vec<String>) -> (r: Vec<Vec<char>>)
    ensures
        char_views(r@) == string_views(v@),
{
    let mut r: Vec<Vec<char>> = Vec::new();
    let mut i: usize = 0;
    while i < v.len()
        invariant
            i <= v.len(),
            char_views(r@) == string_views(v@.take(i as int)),
        decreases v.len() - i,
    {
        let ghost prev = r@;
        r.push(chars_of(v[i].as_str()));
        proof {
            let a = char_views(r@);
            let b = string_views(v@.take(i + 1));
            assert(char_views(prev).len() == string_views(v@.take(i as int)).len());
            assert(v@.take(i + 1).len() == i + 1);
            assert(a.len() == i + 1 && b.len() == i + 1);
            assert forall|k: int| 0 <= k < a.len() implies a[k] == b[k] by {
                assert(v@.take(i + 1)[k] == v@[k]);
                if k < i {
                    assert(v@.take(i as int)[k] == v@[k]);
                    assert(char_views(prev)[k] == string_views(v@.take(i as int))[k]);
                }
            }
            assert(a =~= b);
        }
        i = i + 1;
    }
    assert(v@.take(v.len() as int) =~= v@);
    r
}

/// The texts of a persona's traits.
fn trait_texts(v: &Vec<PersonaTrait>) -> (r: Vec<Vec<char>>)
    ensures
        char_views(r@) == trait_texts_of(v@),
{
    let mut r: Vec<Vec<char>> = Vec::new();
    let mut i: usize = 0;
    while i < v.len()
        invariant
            i <= v.len(),
            char_views(r@) == trait_texts_of(v@.take(i as int)),
        decreases v.len() - i,
    {
        let mut c = chars_of(v[i].name.as_str());
        c.push(' ');
        let mut digits = decimal_chars(v[i].level / 10);
        c.append(&mut digits);
        c.push('%');
        let ghost prev = r@;
        r.push(c);
        proof {
            let a = char_views(r@);
            let b = trait_texts_of(v@.take(i + 1));
            assert(char_views(prev).len() == trait_texts_of(v@.take(i as int)).len());
            assert(v@.take(i + 1).len() == i + 1);
            assert(a.len() == i + 1 && b.len() == i + 1);
            assert forall|k: int| 0 <= k < a.len() implies a[k] == b[k] by {
                assert(v@.take(i + 1)[k] == v@[k]);
                if k < i {
                    assert(v@.take(i as int)[k] == v@[k]);
                    assert(char_views(prev)[k] == trait_texts_of(v@.take(i as int))[k]);
                }
            }
            assert(a =~= b);
        }
        i = i + 1;
    }
    assert(v@.take(v.len() as int) =~= v@);
    r
}

fn push_str(out: &mut Vec<char>, s: &str)
    ensures
        final(out)@ == old(out)@ + s@,
{
    let mut c = chars_of(s);
    out.append(&mut c);
}

/// The prompt sent upstream: the persona header, then the client's text.
pub fn compose_prompt(prompt: &str, profile: &PersonaProfile) -> (r: String)
    ensures
        r@ == persona_header(*profile) + prompt@,
{
    let sep: Vec<char> = vec![',', ' '];
    assert(sep@ =~= comma());
    let mut out: Vec<char> = Vec::new();
    push_str(&mut out, PERSONA_OPEN);
    push_str(&mut out, profile.name.as_str());
    push_str(&mut out, TONE_LABEL);
    push_str(&mut out, profile.tone.as_str());
    push_str(&mut out, TRAITS_LABEL);
    push_joined(&mut out, &trait_texts(&profile.traits), &sep);
    push_str(&mut out, CONSTRAINTS_LABEL);
    push_joined(&mut out, &chars_of_all(&profile.constraints), &sep);
    push_str(&mut out, PHRASES_LABEL);
    push_joined(&mut out, &chars_of_all(&profile.phrases), &sep);
    push_str(&mut out, PERSONA_CLOSE);
    push_str(&mut out, prompt);
    assert(out@ =~= persona_header(*profile) + prompt@);
    string_of(&out)
}

/// Whether some constraint phrase of the profile occurs in the prompt, both
/// taken in lowercase.
pub fn violates_policy(prompt: &str, profile: &PersonaProfile) -> (r: bool)
    ensures
        r == violates(prompt@, profile.constraints@),
{
    let lowered = lowercase(prompt);
    let mut i: usize = 0;
    while i < profile.constraints.len()
        invariant
            i <= profile.constraints.len(),
            lowered@ == lower_of(prompt@),
            forall|k: int|
                0 <= k < i ==> !occurs_in(
                    lower_of(#[trigger] profile.constraints@[k]@),
                    lower_of(prompt@),
                ),
        decreases profile.constraints.len() - i,
    {
        let phrase = lowercase(profile.constraints[i].as_str());
        if contains_phrase(lowered.as_str(), phrase.as_str()) {
            return true;
        }
        i = i + 1;
    }
    false
}

/// Decides what to do with a client's prompt: refuse it where a constraint
/// phrase of the profile occurs in it, else forward the composed prompt.
pub fn plan_request(prompt: Option<String>, profile: &PersonaProfile) -> (r: Plan)
    ensures
        r is Refuse <==> violates(effective_prompt(prompt), profile.constraints@),
        r matches Plan::Forward(req) ==> req.wf() && req.messages@.len() == 1 && req.model@
            == MODEL@ && req.stream && req.messages@[0].role@ == USER_ROLE@
            && req.messages@[0].content@ == persona_header(*profile) + effective_prompt(prompt),
{
    let text = match prompt {
        Some(p) => p,
        None => String::from_str(DEFAULT_PROMPT),
    };
    if violates_policy(text.as_str(), profile) {
        return Plan::Refuse;
    }
    let content = compose_prompt(text.as_str(), profile);
    let messages = vec![Message { role: String::from_str(USER_ROLE), content }];
    Plan::Forward(GenerationRequest { model: String::from_str(MODEL), messages, stream: true })
}

/// The response to a refused prompt.
pub fn refusal_response() -> (r: ResponseHead)
    ensures
        r.status == FORBIDDEN_STATUS,
        r.body@ == REFUSAL_BODY@,
{
    ResponseHead { status: FORBIDDEN_STATUS, body: String::from_str(REFUSAL_BODY) }
}

/// The response where the upstream could not be reached: a failure status
/// and a fixed body, before any fragment was relayed.
pub fn upstream_failure_response() -> (r: ResponseHead)
    ensures
        r.status == BAD_GATEWAY_STATUS,
        r.body@ == UPSTREAM_FAILURE_BODY@,
{
    ResponseHead { status: BAD_GATEWAY_STATUS, body: String::from_str(UPSTREAM_FAILURE_BODY) }
}

} // verus!
