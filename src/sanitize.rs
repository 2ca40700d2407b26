//! Removal of protocol markup from raw fragments, and whitespace collapse.
use vstd::prelude::*;

verus! {

/// Bracketed control markers: `[control_` digits `]`.
pub const CONTROL_PATTERN: &'static str = r"\[control_\d+\]";

/// Unknown-token placeholders.
pub const UNKNOWN_PATTERN: &'static str = r"(<unk>|<unk>)";

/// Tool-invocation markers.
pub const TOOL_PATTERN: &'static str = r"(\[TOOL_CALLS\]|\[TOOL_RESULTS\])";

/// Any run of whitespace.
pub const SPACE_PATTERN: &'static str = r"\s+";

/// The four kinds of text that the sanitiser rewrites.
pub enum MarkerKind {
    Control,
    Unknown,
    Tool,
    Space,
}

/// Membership in the Unicode `Nd` class, which `\d` matches.
pub uninterp spec fn is_decimal_digit(c: char) -> bool;

/// Membership in the Unicode `White_Space` property, which `\s` matches.
pub open spec fn is_white_space(c: char) -> bool {
    ('\u{9}' <= c && c <= '\u{d}') || c == ' ' || c == '\u{85}' || c == '\u{a0}'
        || c == '\u{1680}' || ('\u{2000}' <= c && c <= '\u{200a}') || c == '\u{2028}'
        || c == '\u{2029}' || c == '\u{202f}' || c == '\u{205f}' || c == '\u{3000}'
}

/// Whether `s` begins with `p`.
pub open spec fn starts_with(s: Seq<char>, p: Seq<char>) -> bool {
    p.len() <= s.len() && s.subrange(0, p.len() as int) == p
}

/// Number of consecutive characters satisfying `f` in `s`, from its start.
pub open spec fn run_len(s: Seq<char>, f: spec_fn(char) -> bool) -> nat
    decreases s.len(),
{
    if s.len() > 0 && f(s[0]) {
        1 + run_len(s.drop_first(), f)
    } else {
        0
    }
}

pub open spec fn control_open() -> Seq<char> {
    seq!['[', 'c', 'o', 'n', 't', 'r', 'o', 'l', '_']
}

pub open spec fn unknown_token() -> Seq<char> {
    seq!['<', 'u', 'n', 'k', '>']
}

pub open spec fn tool_calls() -> Seq<char> {
    seq!['[', 'T', 'O', 'O', 'L', '_', 'C', 'A', 'L', 'L', 'S', ']']
}

pub open spec fn tool_results() -> Seq<char> {
    seq!['[', 'T', 'O', 'O', 'L', '_', 'R', 'E', 'S', 'U', 'L', 'T', 'S', ']']
}

/// Length of the match of `kind`'s pattern that starts at the beginning of
/// `s`, or 0 where none starts there.
/// `digit` is the class of characters that `\d` matches.
pub open spec fn match_len(kind: MarkerKind, s: Seq<char>, digit: spec_fn(char) -> bool) -> nat {
    match kind {
        MarkerKind::Control => {
            let digits = run_len(s.skip(9), digit);
            if starts_with(s, control_open()) && digits > 0 && 9 + digits < s.len()
                && s[9 + digits as int] == ']' {
                10 + digits
            } else {
                0
            }
        },
        MarkerKind::Unknown => if starts_with(s, unknown_token()) {
            5
        } else {
            0
        },
        MarkerKind::Tool => if starts_with(s, tool_calls()) {
            12
        } else if starts_with(s, tool_results()) {
            14
        } else {
            0
        },
        MarkerKind::Space => run_len(s, |c: char| is_white_space(c)),
    }
}

/// Every match of `kind`'s pattern replaced by `rep`, matches taken leftmost
/// first and without overlap.
pub open spec fn replaced_with(
    s: Seq<char>,
    kind: MarkerKind,
    rep: Seq<char>,
    digit: spec_fn(char) -> bool,
) -> Seq<char>
    decreases s.len(),
{
    if s.len() == 0 {
        s
    } else if 0 < match_len(kind, s, digit) <= s.len() {
        rep + replaced_with(s.skip(match_len(kind, s, digit) as int), kind, rep, digit)
    } else {
        seq![s[0]] + replaced_with(s.drop_first(), kind, rep, digit)
    }
}

/// What `replace_all` makes of `s` with Unicode decimal digits for `\d`
/// (the ASCII digits among them, and no whitespace character).
pub open spec fn replaced(s: Seq<char>, kind: MarkerKind, rep: Seq<char>) -> Seq<char> {
    replaced_with(s, kind, rep, |c: char| (('0' <= c && c <= '9') || is_decimal_digit(c)) && !is_white_space(c))
}

/// The pattern text that stands for `kind`.
pub open spec fn pattern_of(kind: MarkerKind) -> Seq<char> {
    match kind {
        MarkerKind::Control => CONTROL_PATTERN@,
        MarkerKind::Unknown => UNKNOWN_PATTERN@,
        MarkerKind::Tool => TOOL_PATTERN@,
        MarkerKind::Space => SPACE_PATTERN@,
    }
}

/// Relies on regex::Regex::new, which compiles each of the four patterns
/// above without error, and on regex::Regex::replace_all, which replaces
/// every non-overlapping leftmost-first match by `rep` (the patterns hold no
/// group reference, and `rep` holds no `$`). `\d` matches the Unicode
/// decimal digits, which hold the ASCII digits and no whitespace character.
#[verifier::external_body]
fn regex_replace_all(pattern: &str, text: &str, rep: &str) -> (r: String)
    requires
        pattern@ == CONTROL_PATTERN@ || pattern@ == UNKNOWN_PATTERN@ || pattern@
            == TOOL_PATTERN@ || pattern@ == SPACE_PATTERN@,
        !rep@.contains('$'),
    ensures
        pattern@ == CONTROL_PATTERN@ ==> r@ == replaced_with(
            text@,
            MarkerKind::Control,
            rep@,
            |c: char| (('0' <= c && c <= '9') || is_decimal_digit(c)) && !is_white_space(c),
        ),
        pattern@ == UNKNOWN_PATTERN@ ==> r@ == replaced(text@, MarkerKind::Unknown, rep@),
        pattern@ == TOOL_PATTERN@ ==> r@ == replaced(text@, MarkerKind::Tool, rep@),
        pattern@ == SPACE_PATTERN@ ==> r@ == replaced(text@, MarkerKind::Space, rep@),
{
    regex::Regex::new(pattern).unwrap().replace_all(text, rep).into_owned()
}

/// One round of marker removal: control markers, then placeholders, then
/// tool markers.
pub open spec fn strip_round(s: Seq<char>) -> Seq<char> {
    let a = replaced(s, MarkerKind::Control, seq![]);
    let b = replaced(a, MarkerKind::Unknown, seq![]);
    replaced(b, MarkerKind::Tool, seq![])
}

/// Rounds of marker removal repeated until a round changes nothing (a round
/// that changes anything shortens the text).
pub open spec fn stripped(s: Seq<char>) -> Seq<char>
    decreases s.len(),
{
    if strip_round(s).len() < s.len() {
        stripped(strip_round(s))
    } else {
        s
    }
}

/// What `clean_content` makes of `raw`: markers removed until none remain,
/// then whitespace runs collapsed to one space.
pub open spec fn cleaned(raw: Seq<char>) -> Seq<char> {
    replaced(stripped(raw), MarkerKind::Space, seq![' '])
}

/// Strips control markers, unknown-token placeholders and tool markers from a
/// raw fragment until none remain, including those that the removal of
/// another forms, then collapses each run of whitespace to a single space.
pub fn clean_content(raw: &str) -> (r: String)
    ensures
        r@ == cleaned(raw@),
        marker_free(r@),
        collapsed(r@),
{
    let none = "";
    let space = " ";
    proof {
        reveal_strlit("");
        reveal_strlit(" ");
        assert(none@ =~= Seq::<char>::empty());
        assert(space@ =~= seq![' ']);
    }
    let mut cur = raw.to_owned();
    loop
        invariant
            none@ == Seq::<char>::empty(),
            stripped(cur@) == stripped(raw@),
        ensures
            stripped(raw@) == cur@,
        decreases cur@.len(),
    {
        let a = regex_replace_all(CONTROL_PATTERN, cur.as_str(), none);
        let b = regex_replace_all(UNKNOWN_PATTERN, a.as_str(), none);
        let c = regex_replace_all(TOOL_PATTERN, b.as_str(), none);
        proof {
            lemma_round_shrinks(cur@);
        }
        assert(c@ == strip_round(cur@));
        if c == cur {
            break;
        }
        cur = c;
    }
    proof {
        lemma_clean_marker_free(raw@);
        lemma_clean_collapses(raw@);
    }
    regex_replace_all(SPACE_PATTERN, cur.as_str(), space)
}

/// Whether every whitespace character of `s` is a plain space that no other
/// whitespace character follows.
pub open spec fn collapsed(s: Seq<char>) -> bool {
    forall|i: int|
        0 <= i < s.len() && #[trigger] is_white_space(s[i]) ==> s[i] == ' ' && (i + 1 < s.len()
            ==> !is_white_space(s[i + 1]))
}

/// Whether no control marker, placeholder or tool marker starts anywhere in `s`.
pub open spec fn marker_free(s: Seq<char>) -> bool {
    forall|i: int|
        0 <= i < s.len() ==> match_len(MarkerKind::Control, #[trigger] s.skip(i), |c: char| (('0' <= c && c <= '9') || is_decimal_digit(c)) && !is_white_space(c))
            == 0 && match_len(MarkerKind::Unknown, s.skip(i), |c: char| (('0' <= c && c <= '9') || is_decimal_digit(c)) && !is_white_space(c)) == 0
            && match_len(MarkerKind::Tool, s.skip(i), |c: char| (('0' <= c && c <= '9') || is_decimal_digit(c)) && !is_white_space(c)) == 0
}

proof fn lemma_run_len(s: Seq<char>, f: spec_fn(char) -> bool)
    ensures
        run_len(s, f) <= s.len(),
        forall|i: int| 0 <= i < run_len(s, f) ==> f(s[i]),
        run_len(s, f) < s.len() ==> !f(s[run_len(s, f) as int]),
    decreases s.len(),
{
    if s.len() > 0 && f(s[0]) {
        lemma_run_len(s.drop_first(), f);
        assert forall|i: int| 0 <= i < run_len(s, f) implies f(s[i]) by {
            if i > 0 {
                assert(s[i] == s.drop_first()[i - 1]);
            }
        }
    }
}

proof fn lemma_no_match_unchanged(
    s: Seq<char>,
    kind: MarkerKind,
    rep: Seq<char>,
    digit: spec_fn(char) -> bool,
)
    requires
        forall|i: int| 0 <= i < s.len() ==> match_len(kind, #[trigger] s.skip(i), digit) == 0,
    ensures
        replaced_with(s, kind, rep, digit) == s,
    decreases s.len(),
{
    if s.len() > 0 {
        assert(s.skip(0) =~= s);
        let t = s.drop_first();
        assert forall|i: int| 0 <= i < t.len() implies match_len(kind, #[trigger] t.skip(i), digit)
            == 0 by {
            assert(t.skip(i) =~= s.skip(i + 1));
        }
        lemma_no_match_unchanged(t, kind, rep, digit);
        assert(seq![s[0]] + t =~= s);
    }
}

proof fn lemma_collapse_head(s: Seq<char>, digit: spec_fn(char) -> bool)
    requires
        s.len() > 0,
        !is_white_space(s[0]),
    ensures
        replaced_with(s, MarkerKind::Space, seq![' '], digit).len() > 0,
        !is_white_space(replaced_with(s, MarkerKind::Space, seq![' '], digit)[0]),
{
    assert(match_len(MarkerKind::Space, s, digit) == 0);
}

proof fn lemma_collapse_result(s: Seq<char>, digit: spec_fn(char) -> bool)
    ensures
        collapsed(replaced_with(s, MarkerKind::Space, seq![' '], digit)),
    decreases s.len(),
{
    let ws = |c: char| is_white_space(c);
    let r = replaced_with(s, MarkerKind::Space, seq![' '], digit);
    if s.len() > 0 {
        let n = match_len(MarkerKind::Space, s, digit);
        lemma_run_len(s, ws);
        if n > 0 {
            let t = s.skip(n as int);
            lemma_collapse_result(t, digit);
            let rt = replaced_with(t, MarkerKind::Space, seq![' '], digit);
            assert(r == seq![' '] + rt);
            if t.len() > 0 {
                assert(t[0] == s[n as int]);
                lemma_collapse_head(t, digit);
            }
            assert forall|i: int| 0 <= i < r.len() && #[trigger] is_white_space(r[i]) implies r[i]
                == ' ' && (i + 1 < r.len() ==> !is_white_space(r[i + 1])) by {
                if i > 0 {
                    assert(r[i] == rt[i - 1]);
                    if i + 1 < r.len() {
                        assert(r[i + 1] == rt[i]);
                    }
                } else if r.len() > 1 {
                    assert(r[1] == rt[0]);
                }
            }
        } else {
            let t = s.drop_first();
            lemma_collapse_result(t, digit);
            let rt = replaced_with(t, MarkerKind::Space, seq![' '], digit);
            assert(r == seq![s[0]] + rt);
            assert forall|i: int| 0 <= i < r.len() && #[trigger] is_white_space(r[i]) implies r[i]
                == ' ' && (i + 1 < r.len() ==> !is_white_space(r[i + 1])) by {
                if i > 0 {
                    assert(r[i] == rt[i - 1]);
                    if i + 1 < r.len() {
                        assert(r[i + 1] == rt[i]);
                    }
                }
            }
        }
    }
}

proof fn lemma_collapse_collapsed(s: Seq<char>, digit: spec_fn(char) -> bool)
    requires
        collapsed(s),
    ensures
        replaced_with(s, MarkerKind::Space, seq![' '], digit) == s,
    decreases s.len(),
{
    let ws = |c: char| is_white_space(c);
    if s.len() > 0 {
        let t = s.drop_first();
        assert forall|i: int| 0 <= i < t.len() && #[trigger] is_white_space(t[i]) implies t[i]
            == ' ' && (i + 1 < t.len() ==> !is_white_space(t[i + 1])) by {
            assert(t[i] == s[i + 1]);
            if i + 1 < t.len() {
                assert(t[i + 1] == s[i + 2]);
            }
        }
        lemma_collapse_collapsed(t, digit);
        if is_white_space(s[0]) {
            assert(s.len() > 1 ==> !is_white_space(s[1]));
            assert(s.drop_first().len() > 0 ==> s.drop_first()[0] == s[1]);
            assert(run_len(s.drop_first(), ws) == 0);
            assert(match_len(MarkerKind::Space, s, digit) == 1);
            assert(s.skip(1) =~= t);
        }
        assert(seq![s[0]] + t =~= s);
    }
}

/// Whether `kind` is one of the three marker kinds.
pub open spec fn is_marker(kind: MarkerKind) -> bool {
    !(kind is Space)
}

proof fn lemma_marker_within(kind: MarkerKind, s: Seq<char>, digit: spec_fn(char) -> bool)
    requires
        is_marker(kind),
    ensures
        match_len(kind, s, digit) <= s.len(),
{
}

proof fn lemma_remove_shrinks(s: Seq<char>, kind: MarkerKind, digit: spec_fn(char) -> bool)
    requires
        is_marker(kind),
    ensures
        replaced_with(s, kind, seq![], digit).len() <= s.len(),
        replaced_with(s, kind, seq![], digit).len() == s.len() ==> replaced_with(
            s,
            kind,
            seq![],
            digit,
        ) == s,
        replaced_with(s, kind, seq![], digit) == s ==> forall|i: int|
            0 <= i < s.len() ==> match_len(kind, #[trigger] s.skip(i), digit) == 0,
    decreases s.len(),
{
    if s.len() > 0 {
        lemma_marker_within(kind, s, digit);
        let n = match_len(kind, s, digit);
        if n > 0 {
            lemma_remove_shrinks(s.skip(n as int), kind, digit);
            assert(replaced_with(s, kind, seq![], digit) =~= replaced_with(
                s.skip(n as int),
                kind,
                seq![],
                digit,
            ));
        } else {
            let t = s.drop_first();
            lemma_remove_shrinks(t, kind, digit);
            let r = replaced_with(s, kind, seq![], digit);
            let rt = replaced_with(t, kind, seq![], digit);
            assert(r == seq![s[0]] + rt);
            if r.len() == s.len() {
                assert(rt =~= t) by {
                    assert forall|i: int| 0 <= i < rt.len() implies rt[i] == t[i] by {
                        assert(r[i + 1] == rt[i]);
                        assert(r[i + 1] == s[i + 1]);
                    }
                }
                assert(r =~= s);
            }
            if r == s {
                assert(rt =~= t) by {
                    assert forall|i: int| 0 <= i < rt.len() implies rt[i] == t[i] by {
                        assert(r[i + 1] == rt[i]);
                    }
                }
                assert forall|i: int| 0 <= i < s.len() implies match_len(
                    kind,
                    #[trigger] s.skip(i),
                    digit,
                ) == 0 by {
                    if i == 0 {
                        assert(s.skip(0) =~= s);
                    } else {
                        assert(t.skip(i - 1) =~= s.skip(i));
                    }
                }
            }
        }
    }
}

proof fn lemma_round_shrinks(s: Seq<char>)
    ensures
        strip_round(s).len() <= s.len(),
        strip_round(s).len() == s.len() ==> strip_round(s) == s && marker_free(s),
{
    let d = |c: char| (('0' <= c && c <= '9') || is_decimal_digit(c)) && !is_white_space(c);
    let a = replaced(s, MarkerKind::Control, seq![]);
    let b = replaced(a, MarkerKind::Unknown, seq![]);
    lemma_remove_shrinks(s, MarkerKind::Control, d);
    lemma_remove_shrinks(a, MarkerKind::Unknown, d);
    lemma_remove_shrinks(b, MarkerKind::Tool, d);
}

proof fn lemma_stripped_free(s: Seq<char>)
    ensures
        marker_free(stripped(s)),
    decreases s.len(),
{
    lemma_round_shrinks(s);
    if strip_round(s).len() < s.len() {
        lemma_stripped_free(strip_round(s));
    }
}

proof fn lemma_free_stripped(s: Seq<char>)
    requires
        marker_free(s),
    ensures
        stripped(s) == s,
{
    let d = |c: char| (('0' <= c && c <= '9') || is_decimal_digit(c)) && !is_white_space(c);
    lemma_no_match_unchanged(s, MarkerKind::Control, seq![], d);
    lemma_no_match_unchanged(s, MarkerKind::Unknown, seq![], d);
    lemma_no_match_unchanged(s, MarkerKind::Tool, seq![], d);
}

/// Runs of `f` that agree on their first `r + 1` characters and end at
/// index `r` in one have the same length in the other.
proof fn lemma_run_agrees(a: Seq<char>, b: Seq<char>, f: spec_fn(char) -> bool, r: nat)
    requires
        r < a.len(),
        r < b.len(),
        forall|i: int| 0 <= i <= r ==> a[i] == b[i],
        forall|i: int| 0 <= i < r ==> f(a[i]),
        !f(a[r as int]),
    ensures
        run_len(b, f) == r,
    decreases r,
{
    if r > 0 {
        lemma_run_agrees(a.drop_first(), b.drop_first(), f, (r - 1) as nat);
        assert(f(b[0]));
    }
}

/// The collapsed text agrees with the original on each prefix that holds no
/// whitespace.
proof fn lemma_collapse_prefix(s: Seq<char>, digit: spec_fn(char) -> bool, m: nat)
    requires
        m <= replaced_with(s, MarkerKind::Space, seq![' '], digit).len(),
        forall|i: int|
            0 <= i < m ==> !is_white_space(
                #[trigger] replaced_with(s, MarkerKind::Space, seq![' '], digit)[i],
            ),
    ensures
        m <= s.len(),
        forall|i: int|
            0 <= i < m ==> s[i] == #[trigger] replaced_with(s, MarkerKind::Space, seq![' '], digit)[i],
    decreases s.len(),
{
    let out = replaced_with(s, MarkerKind::Space, seq![' '], digit);
    if m > 0 {
        let ws = |c: char| is_white_space(c);
        lemma_run_len(s, ws);
        assert(s.len() > 0);
        if match_len(MarkerKind::Space, s, digit) > 0 {
            assert(out[0] == ' ');
            assert(false);
        } else {
            let t = s.drop_first();
            let rt = replaced_with(t, MarkerKind::Space, seq![' '], digit);
            assert(out == seq![s[0]] + rt);
            assert forall|i: int| 0 <= i < m - 1 implies !is_white_space(#[trigger] rt[i]) by {
                assert(out[i + 1] == rt[i]);
            }
            lemma_collapse_prefix(t, digit, (m - 1) as nat);
            assert forall|i: int| 0 <= i < m implies s[i] == #[trigger] out[i] by {
                if i > 0 {
                    assert(out[i] == rt[i - 1]);
                }
            }
        }
    }
}

proof fn lemma_match_in_collapse(s: Seq<char>, kind: MarkerKind, digit: spec_fn(char) -> bool)
    requires
        is_marker(kind),
        forall|c: char| digit(c) ==> !is_white_space(c),
        match_len(kind, replaced_with(s, MarkerKind::Space, seq![' '], digit), digit) > 0,
    ensures
        match_len(kind, s, digit) > 0,
{
    let out = replaced_with(s, MarkerKind::Space, seq![' '], digit);
    let n = match_len(kind, out, digit);
    lemma_marker_within(kind, out, digit);
    match kind {
        MarkerKind::Control => {
            let dl = run_len(out.skip(9), digit);
            lemma_run_len(out.skip(9), digit);
            assert forall|i: int| 0 <= i < n implies !is_white_space(#[trigger] out[i]) by {
                if i < 9 {
                    assert(out[i] == out.subrange(0, 9)[i]);
                    assert(out[i] == control_open()[i]);
                } else if i < 9 + dl {
                    assert(out[i] == out.skip(9)[i - 9]);
                }
            }
            lemma_collapse_prefix(s, digit, n);
            assert(s.subrange(0, 9) =~= out.subrange(0, 9));
            lemma_run_agrees(out.skip(9), s.skip(9), digit, dl);
        },
        MarkerKind::Unknown => {
            assert forall|i: int| 0 <= i < n implies !is_white_space(#[trigger] out[i]) by {
                assert(out[i] == out.subrange(0, 5)[i]);
                assert(out[i] == unknown_token()[i]);
            }
            lemma_collapse_prefix(s, digit, n);
            assert(s.subrange(0, 5) =~= out.subrange(0, 5));
        },
        MarkerKind::Tool => {
            if starts_with(out, tool_calls()) {
                assert forall|i: int| 0 <= i < n implies !is_white_space(#[trigger] out[i]) by {
                    assert(out[i] == out.subrange(0, 12)[i]);
                    assert(out[i] == tool_calls()[i]);
                }
                lemma_collapse_prefix(s, digit, n);
                assert(s.subrange(0, 12) =~= out.subrange(0, 12));
            } else {
                assert forall|i: int| 0 <= i < n implies !is_white_space(#[trigger] out[i]) by {
                    assert(out[i] == out.subrange(0, 14)[i]);
                    assert(out[i] == tool_results()[i]);
                }
                lemma_collapse_prefix(s, digit, n);
                assert(s.subrange(0, 14) =~= out.subrange(0, 14));
            }
        },
        MarkerKind::Space => {},
    }
}

/// Collapsing whitespace never forms a marker: markers hold no whitespace.
proof fn lemma_collapse_keeps_free(s: Seq<char>, kind: MarkerKind, digit: spec_fn(char) -> bool)
    requires
        is_marker(kind),
        forall|c: char| digit(c) ==> !is_white_space(c),
        forall|i: int| 0 <= i < s.len() ==> match_len(kind, #[trigger] s.skip(i), digit) == 0,
    ensures
        forall|j: int|
            0 <= j < replaced_with(s, MarkerKind::Space, seq![' '], digit).len() ==> match_len(
                kind,
                #[trigger] replaced_with(s, MarkerKind::Space, seq![' '], digit).skip(j),
                digit,
            ) == 0,
    decreases s.len(),
{
    let out = replaced_with(s, MarkerKind::Space, seq![' '], digit);
    if s.len() > 0 {
        let n = match_len(MarkerKind::Space, s, digit);
        let ws = |c: char| is_white_space(c);
        lemma_run_len(s, ws);
        let t = if n > 0 {
            s.skip(n as int)
        } else {
            s.drop_first()
        };
        let k: int = if n > 0 {
            n as int
        } else {
            1
        };
        assert(t =~= s.skip(k));
        assert forall|i: int| 0 <= i < t.len() implies match_len(kind, #[trigger] t.skip(i), digit)
            == 0 by {
            assert(t.skip(i) =~= s.skip(i + k));
        }
        lemma_collapse_keeps_free(t, kind, digit);
        let rt = replaced_with(t, MarkerKind::Space, seq![' '], digit);
        assert(out == seq![out[0]] + rt);
        assert forall|j: int| 0 <= j < out.len() implies match_len(
            kind,
            #[trigger] out.skip(j),
            digit,
        ) == 0 by {
            if j > 0 {
                assert(out.skip(j) =~= rt.skip(j - 1));
            } else {
                assert(out.skip(0) =~= out);
                assert(s.skip(0) =~= s);
                if match_len(kind, out, digit) > 0 {
                    lemma_match_in_collapse(s, kind, digit);
                }
            }
        }
    }
}

/// `clean_content` leaves no control marker, placeholder or tool marker
/// anywhere in its output.
pub proof fn lemma_clean_marker_free(raw: Seq<char>)
    ensures
        marker_free(cleaned(raw)),
{
    let d = |c: char| (('0' <= c && c <= '9') || is_decimal_digit(c)) && !is_white_space(c);
    let s = stripped(raw);
    lemma_stripped_free(raw);
    assert forall|i: int| 0 <= i < s.len() implies match_len(
        MarkerKind::Control,
        #[trigger] s.skip(i),
        d,
    ) == 0 && match_len(MarkerKind::Unknown, s.skip(i), d) == 0 && match_len(
        MarkerKind::Tool,
        s.skip(i),
        d,
    ) == 0 by {}
    lemma_collapse_keeps_free(s, MarkerKind::Control, d);
    lemma_collapse_keeps_free(s, MarkerKind::Unknown, d);
    lemma_collapse_keeps_free(s, MarkerKind::Tool, d);
}

/// The output of `clean_content` never holds a whitespace character other
/// than a single space, nor two whitespace characters in a row.
pub proof fn lemma_clean_collapses(raw: Seq<char>)
    ensures
        collapsed(cleaned(raw)),
{
    lemma_collapse_result(
        stripped(raw),
        |c: char| (('0' <= c && c <= '9') || is_decimal_digit(c)) && !is_white_space(c),
    );
}

/// Cleaning is idempotent: cleaning an already cleaned fragment changes
/// nothing.
pub proof fn lemma_clean_idempotent(raw: Seq<char>)
    ensures
        cleaned(cleaned(raw)) == cleaned(raw),
{
    let d = |c: char| (('0' <= c && c <= '9') || is_decimal_digit(c)) && !is_white_space(c);
    let s = cleaned(raw);
    lemma_clean_marker_free(raw);
    lemma_free_stripped(s);
    lemma_clean_collapses(raw);
    lemma_collapse_collapsed(s, d);
}

} // verus!
