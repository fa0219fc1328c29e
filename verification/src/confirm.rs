//! Interactive confirmation: parsing answer lines and resolving one
//! confirmation from a sequence of input lines.
//!
//! The prompt accepts `y` and declines `n`, case-insensitively and ignoring
//! surrounding whitespace. Any other line is invalid: the prompt is repeated
//! and the next line is read, until a valid answer arrives or input ends.
//! End of input yields no decision, which callers treat as "no action taken".

use vstd::prelude::*;
use vstd::string::StrSliceExecFns;

verus! {

/// The parse of one answer line at the confirmation prompt.
#[derive(Clone, Copy, Debug, PartialEq, Eq, Structural)]
pub enum Answer {
    /// The trimmed line is `y` or `Y`.
    Yes,
    /// The trimmed line is `n` or `N`.
    No,
    /// Anything else; the prompt is repeated.
    Invalid,
}

/// The whitespace characters stripped from an answer line before comparing.
pub open spec fn is_answer_ws(c: char) -> bool {
    c == ' ' || c == '\t' || c == '\r' || c == '\n'
}

/// An answer line with its leading whitespace removed.
pub open spec fn trim_front(s: Seq<char>) -> Seq<char>
    decreases s.len(),
{
    if s.len() > 0 && is_answer_ws(s[0]) {
        trim_front(s.drop_first())
    } else {
        s
    }
}

/// An answer line with its trailing whitespace removed.
pub open spec fn trim_back(s: Seq<char>) -> Seq<char>
    decreases s.len(),
{
    if s.len() > 0 && is_answer_ws(s.last()) {
        trim_back(s.drop_last())
    } else {
        s
    }
}

/// An answer line with whitespace removed from both ends.
pub open spec fn spec_trim(s: Seq<char>) -> Seq<char> {
    trim_back(trim_front(s))
}

/// How one answer line is read: after trimming, `y`/`Y` accepts, `n`/`N`
/// declines, anything else is invalid.
pub open spec fn spec_parse_answer(s: Seq<char>) -> Answer {
    let t = spec_trim(s);
    if t.len() == 1 && (t[0] == 'y' || t[0] == 'Y') {
        Answer::Yes
    } else if t.len() == 1 && (t[0] == 'n' || t[0] == 'N') {
        Answer::No
    } else {
        Answer::Invalid
    }
}

/// `trim_front` removes exactly the leading run of whitespace.
proof fn lemma_trim_front_exact(s: Seq<char>, a: int)
    requires
        0 <= a <= s.len(),
        forall|k: int| 0 <= k < a ==> is_answer_ws(s[k]),
        a == s.len() || !is_answer_ws(s[a]),
    ensures
        trim_front(s) == s.subrange(a, s.len() as int),
    decreases a,
{
    if a == 0 {
        assert(s.subrange(0, s.len() as int) =~= s);
    } else {
        let t = s.drop_first();
        assert forall|k: int| 0 <= k < a - 1 implies is_answer_ws(t[k]) by {
            assert(t[k] == s[k + 1]);
        }
        if a - 1 < t.len() {
            assert(t[a - 1] == s[a]);
        }
        lemma_trim_front_exact(t, a - 1);
        assert(t.subrange(a - 1, t.len() as int) =~= s.subrange(a, s.len() as int));
    }
}

/// `trim_back` removes exactly the trailing run of whitespace.
proof fn lemma_trim_back_exact(s: Seq<char>, b: int)
    requires
        0 <= b <= s.len(),
        forall|k: int| b <= k < s.len() ==> is_answer_ws(s[k]),
        b == 0 || !is_answer_ws(s[b - 1]),
    ensures
        trim_back(s) == s.subrange(0, b),
    decreases s.len() - b,
{
    if b == s.len() {
        assert(s.subrange(0, b) =~= s);
    } else {
        assert(is_answer_ws(s.last()));
        let t = s.drop_last();
        assert forall|k: int| b <= k < t.len() implies is_answer_ws(t[k]) by {
            assert(t[k] == s[k]);
        }
        if b > 0 {
            assert(t[b - 1] == s[b - 1]);
        }
        lemma_trim_back_exact(t, b);
        assert(t.subrange(0, b) =~= s.subrange(0, b));
    }
}

/// Any bounds that enclose the non-whitespace core of the line pin down the
/// trimmed line: it is exactly the subrange between them.
proof fn lemma_trim_exact(s: Seq<char>, a: int, b: int)
    requires
        0 <= a <= b <= s.len(),
        forall|k: int| 0 <= k < a ==> is_answer_ws(s[k]),
        forall|k: int| b <= k < s.len() ==> is_answer_ws(s[k]),
        a == b || (!is_answer_ws(s[a]) && !is_answer_ws(s[b - 1])),
    ensures
        spec_trim(s) == s.subrange(a, b),
{
    if a == b {
        lemma_trim_front_exact(s, s.len() as int);
        assert(s.subrange(s.len() as int, s.len() as int) =~= Seq::<char>::empty());
        assert(s.subrange(a, b) =~= Seq::<char>::empty());
    } else {
        lemma_trim_front_exact(s, a);
        let t = s.subrange(a, s.len() as int);
        assert forall|k: int| b - a <= k < t.len() implies is_answer_ws(t[k]) by {
            assert(t[k] == s[k + a]);
        }
        assert(t[b - a - 1] == s[b - 1]);
        lemma_trim_back_exact(t, b - a);
        assert(t.subrange(0, b - a) =~= s.subrange(a, b));
    }
}

/// Whether a character counts as whitespace around an answer.
fn is_ws_char(c: char) -> (r: bool)
    ensures
        r == is_answer_ws(c),
{
    c == ' ' || c == '\t' || c == '\r' || c == '\n'
}

/// Parses one answer line, case-insensitively and ignoring surrounding
/// whitespace: `y` accepts, `n` declines, anything else is invalid.
pub fn parse_answer(line: &str) -> (r: Answer)
    ensures
        r == spec_parse_answer(line@),
{
    let n: usize = line.unicode_len();
    let mut a: usize = 0;
    while a < n && is_ws_char(line.get_char(a))
        invariant
            n == line@.len(),
            a <= n,
            forall|k: int| 0 <= k < a ==> is_answer_ws(line@[k]),
        decreases n - a,
    {
        a = a + 1;
    }
    let mut b: usize = n;
    while b > a && is_ws_char(line.get_char(b - 1))
        invariant
            n == line@.len(),
            a <= b <= n,
            forall|k: int| b <= k < n ==> is_answer_ws(line@[k]),
        decreases b,
    {
        b = b - 1;
    }
    proof {
        lemma_trim_exact(line@, a as int, b as int);
    }
    if b - a == 1 {
        let c = line.get_char(a);
        proof {
            assert(spec_trim(line@) =~= seq![line@[a as int]]);
        }
        if c == 'y' || c == 'Y' {
            Answer::Yes
        } else if c == 'n' || c == 'N' {
            Answer::No
        } else {
            Answer::Invalid
        }
    } else {
        Answer::Invalid
    }
}

/// The outcome of one confirmation run over the given input lines: the first
/// line that parses as a valid answer decides; invalid lines are passed over;
/// exhausted input leaves the confirmation undecided.
pub open spec fn spec_confirm(input: Seq<Seq<char>>) -> Option<bool>
    decreases input.len(),
{
    if input.len() == 0 {
        None
    } else {
        match spec_parse_answer(input[0]) {
            Answer::Yes => Some(true),
            Answer::No => Some(false),
            Answer::Invalid => spec_confirm(input.drop_first()),
        }
    }
}

/// How many input lines one confirmation run consumes: every invalid line
/// plus the deciding one, or all of them when no valid answer arrives.
pub open spec fn spec_confirm_used(input: Seq<Seq<char>>) -> nat
    decreases input.len(),
{
    if input.len() == 0 {
        0
    } else {
        match spec_parse_answer(input[0]) {
            Answer::Yes => 1,
            Answer::No => 1,
            Answer::Invalid => 1 + spec_confirm_used(input.drop_first()),
        }
    }
}

/// A confirmation never consumes more lines than the input holds.
pub proof fn lemma_confirm_used_le(input: Seq<Seq<char>>)
    ensures
        spec_confirm_used(input) <= input.len(),
    decreases input.len(),
{
    if input.len() > 0 {
        lemma_confirm_used_le(input.drop_first());
    }
}

/// Resolves one confirmation from scripted input lines, starting at `start`:
/// returns the decision (or `None` when the lines ran out without a valid
/// answer) and the position of the first line not consumed.
pub fn confirm_from(input: &Vec<String>, start: usize) -> (r: (Option<bool>, usize))
    requires
        start <= input.len(),
    ensures
        r.0 == spec_confirm(input.deep_view().skip(start as int)),
        r.1 == start + spec_confirm_used(input.deep_view().skip(start as int)),
        start <= r.1 <= input.len(),
{
    let ghost whole = input.deep_view();
    let mut i: usize = start;
    loop
        invariant
            start <= i <= input.len(),
            whole == input.deep_view(),
            whole.len() == input.len(),
            spec_confirm(whole.skip(start as int)) == spec_confirm(whole.skip(i as int)),
            spec_confirm_used(whole.skip(start as int)) == i - start + spec_confirm_used(
                whole.skip(i as int),
            ),
        decreases input.len() - i,
    {
        if i >= input.len() {
            proof {
                assert(whole.skip(i as int) =~= Seq::<Seq<char>>::empty());
            }
            return (None, i);
        }
        let ans = parse_answer(input[i].as_str());
        proof {
            assert(whole.skip(i as int)[0] == whole[i as int]);
            assert(whole.skip(i as int).drop_first() =~= whole.skip(i as int + 1));
        }
        match ans {
            Answer::Yes => {
                return (Some(true), i + 1);
            },
            Answer::No => {
                return (Some(false), i + 1);
            },
            Answer::Invalid => {
                i = i + 1;
            },
        }
    }
}

/// The single-line confirmation prompt shown for one project.
pub open spec fn spec_prompt_line(path: Seq<char>, name: Seq<char>) -> Seq<char> {
    path + " is a "@ + name + " project. Do you want to clean it? (y/n): "@
}

/// Builds the confirmation prompt for a project at `path` with the given
/// display name. Shown without a trailing newline, flushed before reading.
pub fn prompt_line(path: &str, name: &str) -> (r: String)
    ensures
        r@ == spec_prompt_line(path@, name@),
{
    let mut s = String::from_str(path);
    s.append(" is a ");
    s.append(name);
    s.append(" project. Do you want to clean it? (y/n): ");
    proof {
        assert(s@ =~= spec_prompt_line(path@, name@));
    }
    s
}

/// The re-prompt shown after an invalid answer line.
pub fn invalid_input_prompt() -> (r: &'static str)
    ensures
        r@ == "Invalid input. Try one of (y/n): "@,
{
    "Invalid input. Try one of (y/n): "
}

/// The prompt answer is read case-insensitively: after trimming, `y` and `Y`
/// both accept, `n` and `N` both decline, and every other line is invalid.
pub proof fn lemma_answer_case_insensitive(s: Seq<char>)
    ensures
        spec_parse_answer(s) == Answer::Yes <==> (spec_trim(s) =~= seq!['y'] || spec_trim(s)
            =~= seq!['Y']),
        spec_parse_answer(s) == Answer::No <==> (spec_trim(s) =~= seq!['n'] || spec_trim(s)
            =~= seq!['N']),
{
    let t = spec_trim(s);
    if t.len() == 1 {
        assert(t =~= seq![t[0]]);
    }
}

} // verus!
