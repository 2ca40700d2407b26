//! Persona profiles and the flavouring of cleaned fragments.
use vstd::prelude::*;
use crate::sanitize::is_white_space;
use crate::text::{chars_of, string_of};

verus! {

/// One trait of a persona, with its intensity in thousandths (0 to 1000).
pub struct PersonaTrait {
    pub name: String,
    pub level: u32,
}

/// A named bundle of tone, trait intensities, ethical constraints and
/// signature phrases. A trait that the profile does not list has intensity 0.
pub struct PersonaProfile {
    pub name: String,
    pub traits: Vec<PersonaTrait>,
    pub constraints: Vec<String>,
    pub tone: String,
    pub phrases: Vec<String>,
}

/// The random draws that one call of `augment` consumes. A coin succeeds
/// where its draw, read in thousandths, is below the coin's bias.
pub struct Rolls {
    pub signature: u32,
    pub phrase: u32,
    pub position: u32,
    pub sarcasm: u32,
    pub curiosity: u32,
}

/// Bias of the signature-phrase coin, in thousandths.
pub const SIGNATURE_BIAS: u32 = 300;

/// Bias of the sarcasm coin, in thousandths.
pub const SARCASM_BIAS: u32 = 500;

/// Bias of the curiosity coin, in thousandths.
pub const CURIOSITY_BIAS: u32 = 400;

/// Sarcasm intensity that must be exceeded, in thousandths.
pub const SARCASM_THRESHOLD: u32 = 500;

/// Curiosity intensity that must be exceeded, in thousandths.
pub const CURIOSITY_THRESHOLD: u32 = 700;

pub const SARCASM_TRAIT: &'static str = "sarcasm";

pub const CURIOSITY_TRAIT: &'static str = "curiosity";

pub const SARCASM_SUFFIX: &'static str = " Oh, how absolutely thrilling.";

pub const CURIOSITY_SUFFIX: &'static str = " I wonder what you make of that?";

/// Intensity of the first trait in `traits` named `name`, or 0 if none is.
pub open spec fn trait_level(traits: Seq<PersonaTrait>, name: Seq<char>) -> int
    decreases traits.len(),
{
    if traits.len() == 0 {
        0
    } else if traits[0].name@ == name {
        traits[0].level as int
    } else {
        trait_level(traits.drop_first(), name)
    }
}

/// Whether a word starts at index `i` of `c`.
pub open spec fn is_word_start(c: Seq<char>, i: int) -> bool {
    0 <= i < c.len() && !is_white_space(c[i]) && (i == 0 || is_white_space(c[i - 1]))
}

/// Indices below `n` at which a word of `c` starts, in increasing order.
pub open spec fn word_starts(c: Seq<char>, n: nat) -> Seq<int>
    decreases n,
{
    if n == 0 {
        seq![]
    } else if is_word_start(c, n - 1) {
        word_starts(c, (n - 1) as nat).push(n - 1)
    } else {
        word_starts(c, (n - 1) as nat)
    }
}

proof fn lemma_word_starts_below(c: Seq<char>, n: nat)
    ensures
        forall|k: int|
            0 <= k < word_starts(c, n).len() ==> 0 <= #[trigger] word_starts(c, n)[k] < n,
    decreases n,
{
    if n > 0 {
        let prev = word_starts(c, (n - 1) as nat);
        lemma_word_starts_below(c, (n - 1) as nat);
        assert forall|k: int| 0 <= k < word_starts(c, n).len() implies 0 <= #[trigger] word_starts(
            c,
            n,
        )[k] < n by {
            if k < prev.len() {
                assert(word_starts(c, n)[k] == prev[k]);
            }
        }
    }
}

/// The fragment after the signature step: where the profile has phrases, the
/// coin succeeds and the fragment has two words or more, the chosen phrase
/// and a space are inserted at the start of a word other than the first.
pub open spec fn with_signature(c: Seq<char>, p: PersonaProfile, d: Rolls) -> Seq<char> {
    let starts = word_starts(c, c.len());
    if p.phrases@.len() > 0 && d.signature < SIGNATURE_BIAS && starts.len() >= 2 {
        let phrase = p.phrases@[d.phrase as int % p.phrases@.len() as int]@;
        let pos = starts[1 + d.position as int % (starts.len() - 1)];
        c.take(pos) + phrase + seq![' '] + c.skip(pos)
    } else {
        c
    }
}

/// Whether the sarcasm suffix is appended.
pub open spec fn sarcasm_fires(p: PersonaProfile, d: Rolls) -> bool {
    trait_level(p.traits@, SARCASM_TRAIT@) > SARCASM_THRESHOLD && d.sarcasm < SARCASM_BIAS
}

/// Whether the curiosity suffix is appended.
pub open spec fn curiosity_fires(p: PersonaProfile, d: Rolls) -> bool {
    trait_level(p.traits@, CURIOSITY_TRAIT@) > CURIOSITY_THRESHOLD && d.curiosity
        < CURIOSITY_BIAS
}

/// The curiosity suffix where it fires, else nothing.
pub open spec fn curiosity_tail(p: PersonaProfile, d: Rolls) -> Seq<char> {
    if curiosity_fires(p, d) {
        CURIOSITY_SUFFIX@
    } else {
        seq![]
    }
}

/// What `augment` makes of `c`: the signature step, then the sarcasm suffix,
/// then the curiosity suffix.
pub open spec fn augmented(c: Seq<char>, p: PersonaProfile, d: Rolls) -> Seq<char> {
    with_signature(c, p, d) + (if sarcasm_fires(p, d) {
        SARCASM_SUFFIX@
    } else {
        seq![]
    }) + curiosity_tail(p, d)
}

proof fn lemma_flat_traits(traits: Seq<PersonaTrait>, name: Seq<char>)
    requires
        forall|k: int| 0 <= k < traits.len() ==> (#[trigger] traits[k]).level == 0,
    ensures
        trait_level(traits, name) == 0,
    decreases traits.len(),
{
    if traits.len() > 0 {
        let rest = traits.drop_first();
        assert forall|k: int| 0 <= k < rest.len() implies (#[trigger] rest[k]).level == 0 by {
            assert(rest[k] == traits[k + 1]);
        }
        lemma_flat_traits(rest, name);
    }
}

/// A persona whose traits all have intensity 0 and which has no signature
/// phrase leaves every fragment as it is, whatever the draws.
pub proof fn lemma_flat_persona_identity(c: Seq<char>, p: PersonaProfile, d: Rolls)
    requires
        p.phrases@.len() == 0,
        forall|k: int| 0 <= k < p.traits@.len() ==> (#[trigger] p.traits@[k]).level == 0,
    ensures
        augmented(c, p, d) == c,
{
    lemma_flat_traits(p.traits@, SARCASM_TRAIT@);
    lemma_flat_traits(p.traits@, CURIOSITY_TRAIT@);
    assert(augmented(c, p, d) =~= c);
}

/// With sarcasm at full intensity and a sarcasm draw that always succeeds,
/// the sarcasm suffix is appended exactly once, after the signature step and
/// before the curiosity suffix, if any.
pub proof fn lemma_full_sarcasm_appends_once(c: Seq<char>, p: PersonaProfile, d: Rolls)
    requires
        trait_level(p.traits@, SARCASM_TRAIT@) == 1000,
        d.sarcasm == 0,
    ensures
        augmented(c, p, d) == with_signature(c, p, d) + SARCASM_SUFFIX@ + curiosity_tail(p, d),
{
}

/// Whether `c` is whitespace as Unicode's `White_Space` property has it.
pub fn is_space_char(c: char) -> (r: bool)
    ensures
        r == is_white_space(c),
{
    ('\u{9}' <= c && c <= '\u{d}') || c == ' ' || c == '\u{85}' || c == '\u{a0}' || c
        == '\u{1680}' || ('\u{2000}' <= c && c <= '\u{200a}') || c == '\u{2028}' || c
        == '\u{2029}' || c == '\u{202f}' || c == '\u{205f}' || c == '\u{3000}'
}

impl PersonaProfile {
    /// Intensity of the trait named `name`; 0 where the profile lacks it.
    pub fn level_of(&self, name: &str) -> (r: u32)
        ensures
            r as int == trait_level(self.traits@, name@),
    {
        let wanted = String::from_str(name);
        let mut i: usize = 0;
        assert(self.traits@.skip(0) =~= self.traits@);
        while i < self.traits.len()
            invariant
                wanted@ == name@,
                i <= self.traits.len(),
                trait_level(self.traits@, name@) == trait_level(self.traits@.skip(i as int), name@),
            decreases self.traits.len() - i,
        {
            assert(self.traits@.skip(i as int).drop_first() =~= self.traits@.skip(i + 1));
            if self.traits[i].name == wanted {
                return self.traits[i].level;
            }
            i = i + 1;
        }
        0
    }
}

/// Indices at which the words of `c` start.
fn find_word_starts(c: &Vec<char>) -> (r: Vec<usize>)
    ensures
        r@.len() == word_starts(c@, c@.len()).len(),
        forall|k: int| 0 <= k < r@.len() ==> r@[k] as int == #[trigger] word_starts(c@, c@.len())[k],
{
    let mut r: Vec<usize> = Vec::new();
    let mut i: usize = 0;
    while i < c.len()
        invariant
            i <= c.len(),
            r@.len() == word_starts(c@, i as nat).len(),
            forall|k: int| 0 <= k < r@.len() ==> r@[k] as int == #[trigger] word_starts(c@, i as nat)[k],
        decreases c.len() - i,
    {
        let start = !is_space_char(c[i]) && (i == 0 || is_space_char(c[i - 1]));
        if start {
            r.push(i);
        }
        assert(((i + 1) as nat - 1) as nat == i as nat);
        i = i + 1;
    }
    r
}

/// Flavours a cleaned fragment with the persona: first a signature phrase may
/// be inserted after the first word, then the sarcasm and the curiosity
/// suffixes may be appended, each as its coin in `d` decides.
pub fn augment(cleaned: &str, profile: &PersonaProfile, d: &Rolls) -> (r: String)
    ensures
        r@ == augmented(cleaned@, *profile, *d),
{
    let mut out = chars_of(cleaned);
    let ghost c = out@;
    let starts = find_word_starts(&out);
    let n = profile.phrases.len();
    if n > 0 && d.signature < SIGNATURE_BIAS && starts.len() >= 2 {
        let phrase = chars_of(profile.phrases[(d.phrase as usize) % n].as_str());
        let idx = 1 + (d.position as usize) % (starts.len() - 1);
        let pos = starts[idx];
        proof {
            lemma_word_starts_below(c, c.len());
            assert(pos as int == word_starts(c, c.len())[idx as int]);
        }
        let mut tail = out.split_off(pos);
        let mut ph = phrase;
        out.append(&mut ph);
        out.push(' ');
        out.append(&mut tail);
    }
    assert(out@ == with_signature(c, *profile, *d));
    if profile.level_of(SARCASM_TRAIT) > SARCASM_THRESHOLD && d.sarcasm < SARCASM_BIAS {
        let mut s = chars_of(SARCASM_SUFFIX);
        out.append(&mut s);
    }
    if profile.level_of(CURIOSITY_TRAIT) > CURIOSITY_THRESHOLD && d.curiosity < CURIOSITY_BIAS {
        let mut s = chars_of(CURIOSITY_SUFFIX);
        out.append(&mut s);
    }
    string_of(&out)
}

} // verus!
