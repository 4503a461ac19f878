//! Terminal front end decisions: which agent a menu answer picks, and the
//! rewriting of Markdown links into OSC 8 terminal hyperlinks.

use vstd::prelude::*;
use crate::agents::{key_text, name_text, personality_at, personality_key, personality_name, Personality};
use crate::text::{chars_of, push_str, str_eq, string_from_chars, to_lowercase, trim_space, trim_space_chars, unicode_lowercase};

verus! {

/// The value of a sequence of decimal digits.
pub open spec fn digits_value(d: Seq<char>) -> nat
    decreases d.len(),
{
    if d.len() == 0 {
        0
    } else {
        digits_value(d.drop_last()) * 10 + ((d.last() as u32) - ('0' as u32)) as nat
    }
}

/// Every character is an ASCII decimal digit.
pub open spec fn all_digits(d: Seq<char>) -> bool {
    forall|i: int| 0 <= i < d.len() ==> '0' <= #[trigger] d[i] && d[i] <= '9'
}

/// The digits of an unsigned number: the text without one leading `+`.
pub open spec fn unsigned_digits(s: Seq<char>) -> Seq<char> {
    if s.len() > 0 && s[0] == '+' {
        s.drop_first()
    } else {
        s
    }
}

/// The number that a menu answer reads as: an optional `+` followed by at
/// least one decimal digit.
pub open spec fn menu_number(s: Seq<char>) -> Option<nat> {
    let d = unsigned_digits(s);
    if d.len() > 0 && all_digits(d) {
        Some(digits_value(d))
    } else {
        None
    }
}

/// Whether an answer names a personality by its key or its display name,
/// both compared after lower-casing.
pub open spec fn names_personality(answer: Seq<char>, p: Personality) -> bool {
    unicode_lowercase(personality_key(p)) == unicode_lowercase(answer)
        || unicode_lowercase(personality_name(p)) == unicode_lowercase(answer)
}

/// The first personality, from listing position `i` on, that the answer
/// names.
pub open spec fn first_named_from(answer: Seq<char>, i: int) -> Option<Personality>
    decreases 5 - i,
{
    if i >= 5 || i < 0 {
        None
    } else if names_personality(answer, personality_at(i)) {
        Some(personality_at(i))
    } else {
        first_named_from(answer, i + 1)
    }
}

/// The personality that a menu answer picks: by its position in the
/// listing (counted from 1), else by its key or name; none when neither fits.
pub open spec fn menu_choice(input: Seq<char>) -> Option<Personality> {
    let t = trim_space(input);
    match menu_number(t) {
        Some(n) => if 1 <= n && n <= 5 {
            Some(personality_at(n - 1))
        } else {
            first_named_from(t, 0)
        },
        None => first_named_from(t, 0),
    }
}

proof fn lemma_digits_value_grows(d: Seq<char>, c: char)
    requires
        '0' <= c <= '9',
    ensures
        digits_value(d.push(c)) == digits_value(d) * 10 + ((c as u32) - ('0' as u32)) as nat,
        digits_value(d.push(c)) >= digits_value(d),
{
    assert(d.push(c).drop_last() =~= d);
}

/// Reads a menu answer as a number, capped at 6: `Some(min(n, 6))` where
/// `menu_number` gives `Some(n)`.
fn capped_menu_number(t: &[char]) -> (r: Option<u64>)
    ensures
        match menu_number(t@) {
            Some(n) => r == Some(if n < 6 { n as u64 } else { 6u64 }),
            None => r is None,
        },
{
    let n = t.len();
    let start: usize = if n > 0 && t[0] == '+' {
        1
    } else {
        0
    };
    let ghost d = unsigned_digits(t@);
    assert(d =~= t@.subrange(start as int, n as int));
    if start >= n {
        return None;
    }
    let mut value: u64 = 0;
    let mut i: usize = start;
    while i < n
        invariant
            start <= i <= n,
            n == t@.len(),
            d == t@.subrange(start as int, n as int),
            d == unsigned_digits(t@),
            all_digits(t@.subrange(start as int, i as int)),
            value as nat == if digits_value(t@.subrange(start as int, i as int)) < 6 {
                digits_value(t@.subrange(start as int, i as int))
            } else {
                6
            },
        decreases n - i,
    {
        let c = t[i];
        if c < '0' || c > '9' {
            assert(d[i - start] == c);
            assert(!all_digits(d));
            return None;
        }
        proof {
            lemma_digits_value_grows(t@.subrange(start as int, i as int), c);
            assert(t@.subrange(start as int, i as int).push(c) =~= t@.subrange(start as int, i as int + 1));
        }
        let digit: u64 = ((c as u32) - ('0' as u32)) as u64;
        if value < 6 {
            value = value * 10 + digit;
            if value > 6 {
                value = 6;
            }
        }
        i = i + 1;
    }
    Some(value)
}

/// Whether the lower-cased answer equals the lower-cased text.
fn lower_eq(answer_lower: &str, text: &str) -> (b: bool)
    ensures
        b == (answer_lower@ == unicode_lowercase(text@)),
{
    let l = to_lowercase(text);
    str_eq(l.as_str(), answer_lower)
}

/// The agent that an answer at the agent menu picks: a number from 1 to 5
/// picks by listing position, otherwise the answer is matched, ignoring
/// case, against each personality's key and display name; surrounding
/// white space is ignored.
pub fn agent_choice(input: &str) -> (r: Option<Personality>)
    ensures
        r == menu_choice(input@),
{
    let chars = chars_of(input);
    let trimmed = trim_space_chars(chars.as_slice());
    let ghost t = trimmed@;
    match capped_menu_number(trimmed.as_slice()) {
        Some(n) => {
            if 1 <= n && n <= 5 {
                let p = if n == 1 {
                    Personality::Researcher
                } else if n == 2 {
                    Personality::Calculator
                } else if n == 3 {
                    Personality::Creative
                } else if n == 4 {
                    Personality::Coordinator
                } else {
                    Personality::Pragmatic
                };
                return Some(p);
            }
        },
        None => {},
    }
    assert(t == trim_space(input@));
    assert(menu_choice(input@) == first_named_from(t, 0));
    let text = string_from_chars(trimmed.as_slice());
    let lower = to_lowercase(text.as_str());
    let mut i: usize = 0;
    while i < 5
        invariant
            i <= 5,
            lower@ == unicode_lowercase(t),
            text@ == t,
            first_named_from(t, 0) == first_named_from(t, i as int),
            menu_choice(input@) == first_named_from(t, 0),
        decreases 5 - i,
    {
        let p = if i == 0 {
            Personality::Researcher
        } else if i == 1 {
            Personality::Calculator
        } else if i == 2 {
            Personality::Creative
        } else if i == 3 {
            Personality::Coordinator
        } else {
            Personality::Pragmatic
        };
        assert(p == personality_at(i as int));
        if lower_eq(lower.as_str(), key_text(p)) || lower_eq(lower.as_str(), name_text(p)) {
            assert(names_personality(t, p));
            assert(first_named_from(t, i as int) == Some(p));
            return Some(p);
        }
        i = i + 1;
    }
    None
}

/// What a line typed in the conversation asks for.
#[derive(Debug, Clone, Copy, PartialEq, Eq, Structural)]
pub enum InputCommand {
    /// An empty line: ask again.
    Skip,
    /// `quit` or `exit`, in any case: end the program.
    Quit,
    /// `/switch`, in any case: choose another agent.
    Switch,
    /// A message for the agent.
    Message,
}

/// The command that a trimmed line asks for.
pub open spec fn input_command(line: Seq<char>) -> InputCommand {
    if line.len() == 0 {
        InputCommand::Skip
    } else if unicode_lowercase(line) == "quit"@ || unicode_lowercase(line) == "exit"@ {
        InputCommand::Quit
    } else if unicode_lowercase(line) == "/switch"@ {
        InputCommand::Switch
    } else {
        InputCommand::Message
    }
}

/// Reads a line typed in the conversation: the line without surrounding
/// white space, and what it asks for.
pub fn command_of(input: &str) -> (r: (InputCommand, String))
    ensures
        r.1@ == trim_space(input@),
        r.0 == input_command(trim_space(input@)),
{
    let chars = chars_of(input);
    let trimmed = trim_space_chars(chars.as_slice());
    let line = string_from_chars(trimmed.as_slice());
    if trimmed.len() == 0 {
        return (InputCommand::Skip, line);
    }
    let lower = to_lowercase(line.as_str());
    let cmd = if str_eq(lower.as_str(), "quit") || str_eq(lower.as_str(), "exit") {
        InputCommand::Quit
    } else if str_eq(lower.as_str(), "/switch") {
        InputCommand::Switch
    } else {
        InputCommand::Message
    };
    (cmd, line)
}

/// The OSC 8 escape sequence that shows `text` as a hyperlink to `url`.
pub open spec fn osc8_link_text(text: Seq<char>, url: Seq<char>) -> Seq<char> {
    "\x1b]8;;"@ + url + "\x1b\\"@ + text + "\x1b]8;;\x1b\\"@
}

/// Renders `text` as a terminal hyperlink to `url`.
pub fn osc8_link(text: &str, url: &str) -> (s: String)
    ensures
        s@ == osc8_link_text(text@, url@),
{
    let mut out: Vec<char> = Vec::new();
    push_str(&mut out, "\x1b]8;;");
    push_str(&mut out, url);
    push_str(&mut out, "\x1b\\");
    push_str(&mut out, text);
    push_str(&mut out, "\x1b]8;;\x1b\\");
    string_from_chars(out.as_slice())
}

/// The text that the `regex` crate's `replace_all` gives for the pattern
/// `\[([^\]]+)\]\(([^)]+)\)` when each match becomes `osc8_link` of its
/// two groups.
pub uninterp spec fn markdown_links_replaced(input: Seq<char>) -> Seq<char>;

/// Calls `regex::Regex::replace_all` with the Markdown link pattern; every
/// match `[text](url)` is replaced by `osc8_link(text, url)`. The result is
/// named by `markdown_links_replaced`, a function of the input alone.
#[verifier::external_body]
fn replace_markdown_links(input: &str) -> (r: String)
    ensures
        r@ == markdown_links_replaced(input@),
{
    match regex::Regex::new(r"\[([^\]]+)\]\(([^)]+)\)") {
        Ok(re) => re.replace_all(input, |caps: &regex::Captures| osc8_link(&caps[1], &caps[2])).to_string(),
        Err(_) => input.to_string(),
    }
}

/// Replaces Markdown links `[text](url)` by OSC 8 hyperlinks for
/// terminals that support them.
pub fn add_osc8_hyperlinks(input: &str) -> (r: String)
    ensures
        r@ == markdown_links_replaced(input@),
{
    replace_markdown_links(input)
}

} // verus!
