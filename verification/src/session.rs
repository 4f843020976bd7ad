//! The decision logic of the interactive session: classifying an input line
//! as a mask or a command, the effect of one line on the profile record, and
//! the batch semantics of a whole sequence of lines.

use crate::person::Person;
use crate::set::{lemma_members_fold, render_spec, Allergen};
use crate::text::{centi_spec, dec_spec, push_centi, push_dec};
use crate::universe::ALLM;
use vstd::prelude::*;

verus! {

/// True iff `c` is a decimal digit.
pub open spec fn is_digit(c: char) -> bool {
    '0' as u32 <= c as u32 && c as u32 <= '9' as u32
}

/// The numeric value of the digit character `c`.
pub open spec fn digit_val(c: char) -> int {
    c as u32 - '0' as u32
}

/// The value of the digit run `s[start..i]`, most significant digit first.
pub open spec fn digits_val(s: Seq<char>, start: int, i: int) -> int
    decreases i - start,
{
    if i <= start {
        0
    } else {
        digits_val(s, start, i - 1) * 10 + digit_val(s[i - 1])
    }
}

/// What parsing a whole line as a base-10 unsigned integer yields: an
/// optional leading plus sign, then at least one digit, and a value within
/// range; anything else is rejected.
pub open spec fn parse_u32_spec(s: Seq<char>) -> Option<u32> {
    let start: int = if s.len() > 0 && s[0] == '+' {
        1
    } else {
        0
    };
    if s.len() > start && (forall|k: int| start <= k < s.len() ==> is_digit(s[k])) && digits_val(
        s,
        start,
        s.len() as int,
    ) <= u32::MAX {
        Some(digits_val(s, start, s.len() as int) as u32)
    } else {
        None
    }
}

/// What parsing a whole line as a character yields: the line's only
/// character, if it has exactly one.
pub open spec fn parse_char_spec(s: Seq<char>) -> Option<char> {
    if s.len() == 1 {
        Some(s[0])
    } else {
        None
    }
}

proof fn lemma_digits_val_nonneg(s: Seq<char>, start: int, i: int)
    requires
        start <= i,
        forall|k: int| start <= k < i ==> is_digit(s[k]),
    ensures
        digits_val(s, start, i) >= 0,
    decreases i - start,
{
    if i > start {
        lemma_digits_val_nonneg(s, start, i - 1);
    }
}

proof fn lemma_digits_val_mono(s: Seq<char>, start: int, i: int, j: int)
    requires
        start <= i <= j,
        forall|k: int| start <= k < j ==> is_digit(s[k]),
    ensures
        digits_val(s, start, i) <= digits_val(s, start, j),
    decreases j - i,
{
    if i < j {
        lemma_digits_val_mono(s, start, i, j - 1);
        lemma_digits_val_nonneg(s, start, j - 1);
    }
}

/// Parses a whole trimmed line as a base-10 unsigned integer, as
/// `parse_u32_spec` describes.
pub fn parse_u32(s: &str) -> (r: Option<u32>)
    ensures
        r == parse_u32_spec(s@),
{
    let n = s.unicode_len();
    if n == 0 {
        return None;
    }
    let first = s.get_char(0);
    let start: usize = if first == '+' {
        1
    } else {
        0
    };
    if n == start {
        return None;
    }
    let mut acc: u64 = 0;
    let mut i: usize = start;
    while i < n
        invariant
            start <= i <= n,
            n == s@.len(),
            s@.len() > 0,
            start == (if s@[0] == '+' {
                1int
            } else {
                0int
            }),
            forall|k: int| start <= k < i ==> is_digit(s@[k]),
            acc == digits_val(s@, start as int, i as int),
            acc <= u32::MAX,
        decreases n - i,
    {
        let c = s.get_char(i);
        let cv = c as u32;
        if cv < '0' as u32 || cv > '9' as u32 {
            return None;
        }
        let d: u64 = (cv - '0' as u32) as u64;
        acc = acc * 10 + d;
        if acc > u32::MAX as u64 {
            proof {
                if forall|k: int| start <= k < s@.len() ==> is_digit(s@[k]) {
                    lemma_digits_val_mono(s@, start as int, i + 1, s@.len() as int);
                }
            }
            return None;
        }
        i = i + 1;
    }
    Some(acc as u32)
}

/// Parses a whole trimmed line as a single character, as `parse_char_spec`
/// describes.
pub fn parse_char(s: &str) -> (r: Option<char>)
    ensures
        r == parse_char_spec(s@),
{
    if s.unicode_len() == 1 {
        Some(s.get_char(0))
    } else {
        None
    }
}

/// One input line, interpreted: first as an unsigned integer mask, failing
/// that as a single command character, failing that as noise.
#[derive(Clone, Copy, Debug, PartialEq, Eq, Structural)]
pub enum LineInput {
    Num(u32),
    Ch(char),
    Other,
}

/// The interpretation of a trimmed line: the integer reading wins, then the
/// single-character reading, then nothing.
pub open spec fn classify_spec(s: Seq<char>) -> LineInput {
    match parse_u32_spec(s) {
        Option::Some(u) => LineInput::Num(u),
        Option::None => match parse_char_spec(s) {
            Option::Some(c) => LineInput::Ch(c),
            Option::None => LineInput::Other,
        },
    }
}

/// Interprets a trimmed line as `classify_spec` describes.
pub fn classify(s: &str) -> (r: LineInput)
    ensures
        r == classify_spec(s@),
{
    match parse_u32(s) {
        Option::Some(u) => LineInput::Num(u),
        Option::None => match parse_char(s) {
            Option::Some(c) => LineInput::Ch(c),
            Option::None => LineInput::Other,
        },
    }
}

/// The response to the `a` command: the name, then the rendering of the
/// allergen set as recomputed from the known categories.
pub open spec fn allergies_line(name: Seq<char>, mask: u32) -> Seq<char> {
    name + " has "@ + render_spec(mask & ALLM) + " allergies."@
}

/// The response to the `i` command: name, age, and height and weight with
/// two decimal places.
pub open spec fn info_line(name: Seq<char>, age: u8, height_centi: u32, weight_centi: u32) -> Seq<
    char,
> {
    name + ": Age = "@ + dec_spec(age as nat) + "; Height = "@ + centi_spec(height_centi)
        + "; Weight = "@ + centi_spec(weight_centi)
}

/// What one primary input line asks the loop to do next.
#[derive(Debug, PartialEq, Eq)]
pub enum StepResult {
    /// Nothing to print: the line was an accepted mask, or noise.
    Continue,
    /// The line was a mask with no valid bit: a diagnostic is owed.
    Invalid,
    /// A normal output line to print.
    Output(String),
    /// The remove command: one more line must be read and applied.
    NeedRemoveMask,
    /// The quit command: the session is over.
    Quit,
}

/// Applies one primary input line to the record: a mask with valid bits is
/// added, a mask without any is rejected, and the four commands report,
/// ask for a removal mask, or quit; anything else is ignored.
pub fn step(user: &mut Person, line: &str) -> (r: StepResult)
    ensures
        final(user).age == old(user).age,
        final(user).name == old(user).name,
        final(user).height_centi == old(user).height_centi,
        final(user).weight_centi == old(user).weight_centi,
        ({
            let p = *old(user);
            let q = *final(user);
            match classify_spec(line@) {
                LineInput::Num(u) => if u & ALLM == 0 {
                    q.allergies.0 == p.allergies.0 && r is Invalid
                } else {
                    q.allergies.0 == p.allergies.0 | u && r is Continue
                },
                LineInput::Ch(c) => q.allergies.0 == p.allergies.0 && (if c == 'q' {
                    r is Quit
                } else if c == 'a' {
                    match r {
                        StepResult::Output(s) => s@ == allergies_line(p.name@, p.allergies.0),
                        _ => false,
                    }
                } else if c == 'i' {
                    match r {
                        StepResult::Output(s) => s@ == info_line(
                            p.name@,
                            p.age,
                            p.height_centi,
                            p.weight_centi,
                        ),
                        _ => false,
                    }
                } else if c == 'c' {
                    r is NeedRemoveMask
                } else {
                    r is Continue
                }),
                LineInput::Other => q.allergies.0 == p.allergies.0 && r is Continue,
            }
        }),
{
    match classify(line) {
        LineInput::Num(u) => {
            if u & ALLM == 0 {
                StepResult::Invalid
            } else {
                user.allergies.add(u);
                StepResult::Continue
            }
        },
        LineInput::Ch(c) => {
            if c == 'q' {
                StepResult::Quit
            } else if c == 'a' {
                let mut out = user.name.clone();
                out.append(" has ");
                let recomputed = user.allergies();
                let rendered = recomputed.render();
                out.append(rendered.as_str());
                out.append(" allergies.");
                proof {
                    lemma_members_fold(user.allergies.0);
                }
                StepResult::Output(out)
            } else if c == 'i' {
                let mut out = user.name.clone();
                out.append(": Age = ");
                push_dec(&mut out, user.age as u32);
                out.append("; Height = ");
                push_centi(&mut out, user.height_centi);
                out.append("; Weight = ");
                push_centi(&mut out, user.weight_centi);
                StepResult::Output(out)
            } else if c == 'c' {
                StepResult::NeedRemoveMask
            } else {
                StepResult::Continue
            }
        },
        LineInput::Other => StepResult::Continue,
    }
}

/// The mask after the secondary removal line: bits cleared only when the
/// line parses as an integer with at least one valid bit; any other line is
/// ignored without a diagnostic, unlike the add path.
pub open spec fn remove_effect(mask: u32, s: Seq<char>) -> u32 {
    match parse_u32_spec(s) {
        Option::Some(u) => if u & ALLM != 0 {
            mask & !u
        } else {
            mask
        },
        Option::None => mask,
    }
}

/// Applies the secondary line of the remove command, as `remove_effect`
/// describes.
pub fn apply_remove(user: &mut Person, line: &str)
    ensures
        final(user).age == old(user).age,
        final(user).name == old(user).name,
        final(user).height_centi == old(user).height_centi,
        final(user).weight_centi == old(user).weight_centi,
        final(user).allergies.0 == remove_effect(old(user).allergies.0, line@),
{
    match parse_u32(line) {
        Option::Some(u) => {
            if u & ALLM != 0 {
                user.allergies.remove(u);
            }
        },
        Option::None => {},
    }
}

/// One response of the session, with the stream it belongs to.
#[derive(Debug, PartialEq, Eq)]
pub enum Event {
    /// A line for the normal output stream.
    Out(String),
    /// A line for the diagnostic stream.
    Diag(String),
}

/// The model of a response: its text and its stream.
pub enum Ev {
    Out(Seq<char>),
    Diag(Seq<char>),
}

impl View for Event {
    type V = Ev;

    open spec fn view(&self) -> Ev {
        match self {
            Event::Out(s) => Ev::Out(s@),
            Event::Diag(s) => Ev::Diag(s@),
        }
    }
}

/// The views of a sequence of input lines.
pub open spec fn line_views(lines: Seq<String>) -> Seq<Seq<char>> {
    lines.map_values(|l: String| l@)
}

/// The views of a sequence of responses.
pub open spec fn event_views(events: Seq<Event>) -> Seq<Ev> {
    events.map_values(|e: Event| e@)
}

/// The whole session from line `i` on: the final record and the responses,
/// in order. The session ends at the quit command, or when the input is
/// exhausted, including a removal prompt with no line left to answer it.
pub open spec fn session_from(p: Person, lines: Seq<Seq<char>>, i: int) -> (Person, Seq<Ev>)
    decreases lines.len() - i,
{
    if i < 0 || i >= lines.len() {
        (p, Seq::empty())
    } else {
        match classify_spec(lines[i]) {
            LineInput::Num(u) => {
                if u & ALLM == 0 {
                    let rest = session_from(p, lines, i + 1);
                    (rest.0, seq![Ev::Diag("Invalid option"@)] + rest.1)
                } else {
                    session_from(
                        Person {
                            age: p.age,
                            name: p.name,
                            height_centi: p.height_centi,
                            weight_centi: p.weight_centi,
                            allergies: Allergen(p.allergies.0 | u),
                        },
                        lines,
                        i + 1,
                    )
                }
            },
            LineInput::Ch(c) => {
                if c == 'q' {
                    (p, Seq::empty())
                } else if c == 'a' {
                    let rest = session_from(p, lines, i + 1);
                    (rest.0, seq![Ev::Out(allergies_line(p.name@, p.allergies.0))] + rest.1)
                } else if c == 'i' {
                    let rest = session_from(p, lines, i + 1);
                    (
                        rest.0,
                        seq![
                            Ev::Out(info_line(p.name@, p.age, p.height_centi, p.weight_centi)),
                        ] + rest.1,
                    )
                } else if c == 'c' {
                    if i + 1 < lines.len() {
                        session_from(
                            Person {
                                age: p.age,
                                name: p.name,
                                height_centi: p.height_centi,
                                weight_centi: p.weight_centi,
                                allergies: Allergen(remove_effect(p.allergies.0, lines[i + 1])),
                            },
                            lines,
                            i + 2,
                        )
                    } else {
                        (p, Seq::empty())
                    }
                } else {
                    session_from(p, lines, i + 1)
                }
            },
            LineInput::Other => session_from(p, lines, i + 1),
        }
    }
}

/// Runs the whole session on a sequence of already-trimmed lines, mutating
/// the record and returning the responses in order, exactly as
/// `session_from` describes from the first line.
pub fn run_session(user: &mut Person, lines: &Vec<String>) -> (events: Vec<Event>)
    ensures
        ({
            let r = session_from(*old(user), line_views(lines@), 0);
            *final(user) == r.0 && event_views(events@) == r.1
        }),
{
    let ghost ls = line_views(lines@);
    let ghost init = *user;
    let mut events: Vec<Event> = Vec::new();
    let mut i: usize = 0;
    while i < lines.len()
        invariant
            i <= lines.len(),
            init == *old(user),
            ls == line_views(lines@),
            ls.len() == lines@.len(),
            session_from(init, ls, 0) == (
                session_from(*user, ls, i as int).0,
                event_views(events@) + session_from(*user, ls, i as int).1,
            ),
        decreases lines.len() - i,
    {
        let ghost pre = *user;
        let ghost cur = session_from(*user, ls, i as int);
        let ghost evs_before = events@;
        proof {
            assert(ls[i as int] == lines@[i as int]@);
        }
        let r = step(user, lines[i].as_str());
        match r {
            StepResult::Continue => {
                proof {
                    assert(cur == session_from(*user, ls, i + 1));
                }
                i = i + 1;
            },
            StepResult::Invalid => {
                events.push(Event::Diag("Invalid option".to_owned()));
                proof {
                    let rest = session_from(*user, ls, i + 1);
                    assert(cur == (rest.0, seq![Ev::Diag("Invalid option"@)] + rest.1));
                    assert(event_views(events@) =~= event_views(evs_before) + seq![
                        Ev::Diag("Invalid option"@),
                    ]);
                    assert(event_views(evs_before) + (seq![Ev::Diag("Invalid option"@)] + rest.1)
                        =~= event_views(events@) + rest.1);
                }
                i = i + 1;
            },
            StepResult::Output(s) => {
                let ghost text = s@;
                events.push(Event::Out(s));
                proof {
                    let rest = session_from(*user, ls, i + 1);
                    assert(cur == (rest.0, seq![Ev::Out(text)] + rest.1));
                    assert(event_views(events@) =~= event_views(evs_before) + seq![Ev::Out(text)]);
                    assert(event_views(evs_before) + (seq![Ev::Out(text)] + rest.1) =~= event_views(
                        events@,
                    ) + rest.1);
                }
                i = i + 1;
            },
            StepResult::NeedRemoveMask => {
                if i + 1 < lines.len() {
                    proof {
                        assert(ls[i + 1] == lines@[i + 1]@);
                    }
                    apply_remove(user, lines[i + 1].as_str());
                    proof {
                        assert(cur == session_from(*user, ls, i + 2));
                    }
                    i = i + 2;
                } else {
                    proof {
                        assert(cur == (pre, Seq::<Ev>::empty()));
                        assert(event_views(events@) + Seq::<Ev>::empty() =~= event_views(events@));
                    }
                    return events;
                }
            },
            StepResult::Quit => {
                proof {
                    assert(cur == (pre, Seq::<Ev>::empty()));
                    assert(event_views(events@) + Seq::<Ev>::empty() =~= event_views(events@));
                }
                return events;
            },
        }
    }
    proof {
        assert(session_from(*user, ls, i as int) == (*user, Seq::<Ev>::empty()));
        assert(event_views(events@) + Seq::<Ev>::empty() =~= event_views(events@));
    }
    events
}

} // verus!
