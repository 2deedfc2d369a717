//! Interpretation of prompt answers.
//!
//! Reading and writing the terminal is left to the embedding program; this
//! module holds the pure rules that map a raw input line to a decision:
//! yes/no answers with a configurable default, and free-text answers with an
//! optional default and an `allow_empty` policy.

use vstd::prelude::*;
use vstd::string::StrSliceExecFns;

verus! {

/// Default interpretation of a yes-or-no prompt when the answer is not an
/// explicit `y` or `n`.
#[derive(Clone, Copy)]
pub enum DefaultBool {
    /// Anything but an explicit `n` counts as yes.
    YES,
    /// Anything but an explicit `y` counts as no.
    NO,
    /// Only an explicit `y` or `n` decides; everything else is undecided.
    NoDefault,
}

/// A character that counts as blank space when an input line is trimmed.
pub open spec fn is_input_space(c: char) -> bool {
    c == ' ' || c == '\t' || c == '\n' || c == '\r'
}

/// An input line with leading and trailing blank space removed.
pub open spec fn trimmed(s: Seq<char>) -> Seq<char>
    decreases s.len(),
{
    if s.len() == 0 {
        s
    } else if is_input_space(s[0]) {
        trimmed(s.drop_first())
    } else if is_input_space(s[s.len() - 1]) {
        trimmed(s.drop_last())
    } else {
        s
    }
}

/// A line made of blank space alone trims to the empty sequence.
pub proof fn lemma_trimmed_all_space(s: Seq<char>)
    requires
        forall|k: int| 0 <= k < s.len() ==> is_input_space(s[k]),
    ensures
        trimmed(s).len() == 0,
    decreases s.len(),
{
    if s.len() == 0 {
    } else {
        lemma_trimmed_all_space(s.drop_first());
    }
}

/// Trimming keeps exactly the characters between the first and the last
/// non-blank one: if everything before `i` and everything from `j` on is
/// blank, and the characters at the two ends of `[i, j)` are not, then the
/// trimmed line is the subrange `[i, j)`.
pub proof fn lemma_trimmed_subrange(s: Seq<char>, i: int, j: int)
    requires
        0 <= i <= j <= s.len(),
        forall|k: int| 0 <= k < i ==> is_input_space(s[k]),
        forall|k: int| j <= k < s.len() ==> is_input_space(s[k]),
        i < j ==> !is_input_space(s[i]) && !is_input_space(s[j - 1]),
    ensures
        trimmed(s) == s.subrange(i, j),
    decreases s.len(),
{
    if i == j {
        lemma_trimmed_all_space(s);
        assert(trimmed(s) =~= s.subrange(i, j));
    } else if is_input_space(s[0]) {
        let t = s.drop_first();
        lemma_trimmed_subrange(t, i - 1, j - 1);
        assert(t.subrange(i - 1, j - 1) =~= s.subrange(i, j));
    } else if is_input_space(s[s.len() - 1]) {
        let t = s.drop_last();
        lemma_trimmed_subrange(t, i, j);
        assert(t.subrange(i, j) =~= s.subrange(i, j));
    } else {
        assert(i == 0);
        assert(j == s.len());
        assert(trimmed(s) =~= s.subrange(i, j));
    }
}

/// After trimming, the line is exactly `y`, case-insensitively.
pub open spec fn is_yes_input(s: Seq<char>) -> bool {
    let t = trimmed(s);
    t.len() == 1 && (t[0] == 'y' || t[0] == 'Y')
}

/// After trimming, the line is exactly `n`, case-insensitively.
pub open spec fn is_no_input(s: Seq<char>) -> bool {
    let t = trimmed(s);
    t.len() == 1 && (t[0] == 'n' || t[0] == 'N')
}

/// What a yes-or-no prompt resolves to for a raw input line: with default
/// `YES`, everything but an explicit `n` is yes; with default `NO`,
/// everything but an explicit `y` is no; with no default, only an explicit
/// `y` or `n` decides.
pub open spec fn yes_no_decision(raw: Seq<char>, default: DefaultBool) -> Option<bool> {
    match default {
        DefaultBool::YES => Some(!is_no_input(raw)),
        DefaultBool::NO => Some(is_yes_input(raw)),
        DefaultBool::NoDefault => if is_yes_input(raw) {
            Some(true)
        } else if is_no_input(raw) {
            Some(false)
        } else {
            None
        },
    }
}

/// What a free-text prompt resolves to for a raw input line: a non-blank
/// line resolves to its trimmed text; a blank line resolves to the default
/// when one exists, to the empty text when empty answers are allowed, and to
/// nothing (the prompt must be asked again) otherwise.
pub open spec fn string_input_decision(
    raw: Seq<char>,
    default: Option<Seq<char>>,
    allow_empty: bool,
) -> Option<Seq<char>> {
    let t = trimmed(raw);
    if t.len() == 0 {
        match default {
            Some(d) => Some(d),
            None => if allow_empty {
                Some(Seq::empty())
            } else {
                None
            },
        }
    } else {
        Some(t)
    }
}

/// A blank answer follows the prompt's default: yes under default `YES` and
/// no under default `NO`.
pub proof fn lemma_blank_follows_default(raw: Seq<char>)
    requires
        forall|k: int| 0 <= k < raw.len() ==> is_input_space(raw[k]),
    ensures
        yes_no_decision(raw, DefaultBool::YES) == Some(true),
        yes_no_decision(raw, DefaultBool::NO) == Some(false),
{
    lemma_trimmed_all_space(raw);
}

/// Without a default, an answer that is neither an explicit yes nor an
/// explicit no stays undecided.
pub proof fn lemma_no_default_undecided(raw: Seq<char>)
    requires
        !is_yes_input(raw),
        !is_no_input(raw),
    ensures
        yes_no_decision(raw, DefaultBool::NoDefault) is None,
{
}

/// A free-text prompt is asked again exactly when the answer is blank, no
/// default exists, and empty answers are not allowed.
pub proof fn lemma_reprompt_condition(
    raw: Seq<char>,
    default: Option<Seq<char>>,
    allow_empty: bool,
)
    ensures
        string_input_decision(raw, default, allow_empty) is None <==> (trimmed(raw).len() == 0
            && default is None && !allow_empty),
{
}

fn is_blank_char(c: char) -> (b: bool)
    ensures
        b == is_input_space(c),
{
    c == ' ' || c == '\t' || c == '\n' || c == '\r'
}

/// The input line with leading and trailing blank space removed.
pub fn trim_input(s: &str) -> (r: &str)
    ensures
        r@ == trimmed(s@),
{
    let n = s.unicode_len();
    let mut i: usize = 0;
    while i < n && is_blank_char(s.get_char(i))
        invariant
            n == s@.len(),
            0 <= i <= n,
            forall|k: int| 0 <= k < i ==> is_input_space(s@[k]),
        decreases n - i,
    {
        i = i + 1;
    }
    let mut j: usize = n;
    while j > i && is_blank_char(s.get_char(j - 1))
        invariant
            n == s@.len(),
            i <= j <= n,
            forall|k: int| j <= k < n ==> is_input_space(s@[k]),
            i == n || !is_input_space(s@[i as int]),
        decreases j,
    {
        j = j - 1;
    }
    let r = s.substring_char(i, j);
    proof {
        lemma_trimmed_subrange(s@, i as int, j as int);
    }
    r
}

/// Resolves a raw yes-or-no answer under the given default; the answer is
/// trimmed and compared case-insensitively against `y` and `n`.
pub fn yes_no_answer(raw: &str, default: DefaultBool) -> (r: Option<bool>)
    ensures
        r == yes_no_decision(raw@, default),
{
    let t = trim_input(raw);
    let single = t.unicode_len() == 1;
    let yes = single && { let c = t.get_char(0); c == 'y' || c == 'Y' };
    let no = single && { let c = t.get_char(0); c == 'n' || c == 'N' };
    match default {
        DefaultBool::YES => Some(!no),
        DefaultBool::NO => Some(yes),
        DefaultBool::NoDefault => if yes {
            Some(true)
        } else if no {
            Some(false)
        } else {
            None
        },
    }
}

/// Resolves a raw free-text answer: its trimmed text if non-blank, else the
/// default if one exists, else the empty text if allowed, else nothing — the
/// caller must then ask again.
pub fn resolve_string_input(raw: &str, default: &Option<String>, allow_empty: bool) -> (r: Option<
    String,
>)
    ensures
        r.deep_view() == string_input_decision(raw@, default.deep_view(), allow_empty),
{
    let t = trim_input(raw);
    if t.unicode_len() == 0 {
        match default {
            Some(d) => Some(d.clone()),
            None => if allow_empty {
                Some(String::new())
            } else {
                None
            },
        }
    } else {
        Some(t.to_owned())
    }
}

} // verus!
