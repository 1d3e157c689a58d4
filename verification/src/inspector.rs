//! The command language of the inspector, a console that loads an image
//! into the machine, runs it and shows its registers.
//!
//! The console reads a line, splits it into words and hands them to a
//! [`Session`]. The session decides; the console acts. Each call of
//! [`Session::next`] yields one [`Action`]: something to do on the machine
//! or on the screen, or nothing, until the line is finished.
//!
//! ```text
//! line    := command ("&&" command)*
//! command := "help" | ("file" | "load") name | "step" [amount]
//!          | "repeat" amount line | "eval"
//!          | "registers" ("hex" | "binary" | "decimal") | "exit"
//! ```
//!
//! A command that cannot be carried out ends the line it stands in, or the
//! round of the `repeat` it stands in; the next round goes on with the
//! words that follow.

use vstd::prelude::*;
use vstd::string::{StrSliceExecFns, StringExecFns};
use crate::text::same_text;

verus! {

/// How a word is shown.
#[derive(Debug, PartialEq, Eq, Clone, Copy, Structural)]
pub enum WordFormat {
    Hex,
    Binary,
    Decimal,
}

/// The character for a digit below sixteen.
pub open spec fn spec_digit_char(digit: int) -> char {
    "0123456789ABCDEF"@[digit]
}

/// The digits of `value` to the given base, the most significant first,
/// without leading zeros.
pub open spec fn spec_digits(value: nat, base: nat) -> Seq<char>
    decreases value,
{
    if base < 2 || value < base {
        seq![spec_digit_char(value as int)]
    } else {
        proof {
            assert(value / base < value) by (nonlinear_arith)
                requires
                    base >= 2,
                    value >= base,
            ;
        }
        spec_digits(value / base, base).push(spec_digit_char((value % base) as int))
    }
}

/// The last `width` digits of `value` to the given base, with leading
/// zeros.
pub open spec fn spec_padded_digits(value: nat, base: nat, width: nat) -> Seq<char>
    decreases width,
{
    if width == 0 {
        seq![]
    } else {
        spec_padded_digits(value / base, base, (width - 1) as nat).push(
            spec_digit_char((value % base) as int),
        )
    }
}

/// `count` spaces.
pub open spec fn spec_spaces(count: nat) -> Seq<char> {
    Seq::new(count, |i: int| ' ')
}

/// A word as text: in hexadecimal, `0x` and eight digits in upper case; in
/// binary, `0b` and the digits without leading zeros, set to the right of
/// thirty-four columns; in decimal, the digits.
pub open spec fn spec_format_word(word: u32, format: WordFormat) -> Seq<char> {
    match format {
        WordFormat::Hex => "0x"@ + spec_padded_digits(word as nat, 16, 8),
        WordFormat::Binary => {
            let digits = spec_digits(word as nat, 2);
            spec_spaces(
                if digits.len() < 32 {
                    (32 - digits.len()) as nat
                } else {
                    0
                },
            ) + "0b"@ + digits
        },
        WordFormat::Decimal => spec_digits(word as nat, 10),
    }
}

fn digit_text(digit: u32) -> (text: &'static str)
    requires
        digit < 16,
    ensures
        text@ == seq![spec_digit_char(digit as int)],
{
    proof {
        reveal_strlit("0123456789ABCDEF");
    }
    let text = "0123456789ABCDEF".substring_char(digit as usize, digit as usize + 1);
    assert(text@ =~= seq![spec_digit_char(digit as int)]);
    text
}

fn push_digits(out: &mut String, value: u32, base: u32)
    requires
        2 <= base <= 16,
    ensures
        final(out)@ == old(out)@ + spec_digits(value as nat, base as nat),
    decreases value,
{
    if value >= base {
        assert(value / base < value) by (nonlinear_arith)
            requires
                base >= 2,
                value >= base,
        ;
        push_digits(out, value / base, base);
    }
    assert(value % base < base) by (nonlinear_arith)
        requires
            base >= 2,
    ;
    out.append(digit_text(value % base));
    proof {
        let digit = spec_digit_char((value % base) as int);
        if value >= base {
            let upper = spec_digits((value / base) as nat, base as nat);
            assert(out@ =~= old(out)@ + upper.push(digit));
        } else {
            assert(value % base == value) by (nonlinear_arith)
                requires
                    0 <= value < base,
            ;
            assert(out@ =~= old(out)@ + seq![digit]);
        }
    }
}

fn push_padded_digits(out: &mut String, value: u32, base: u32, width: u32)
    requires
        2 <= base <= 16,
    ensures
        final(out)@ == old(out)@ + spec_padded_digits(value as nat, base as nat, width as nat),
    decreases width,
{
    if width == 0 {
        assert(out@ =~= out@ + Seq::<char>::empty());
        return ;
    }
    push_padded_digits(out, value / base, base, width - 1);
    assert(value % base < base) by (nonlinear_arith)
        requires
            base >= 2,
    ;
    out.append(digit_text(value % base));
    proof {
        let digit = spec_digit_char((value % base) as int);
        let upper = spec_padded_digits((value / base) as nat, base as nat, (width - 1) as nat);
        assert(out@ =~= old(out)@ + upper.push(digit));
    }
}

fn push_spaces(out: &mut String, count: usize)
    ensures
        final(out)@ == old(out)@ + spec_spaces(count as nat),
{
    let mut pushed: usize = 0;
    assert(out@ =~= old(out)@ + spec_spaces(0));
    while pushed < count
        invariant
            pushed <= count,
            out@ == old(out)@ + spec_spaces(pushed as nat),
        decreases count - pushed,
    {
        out.append(" ");
        pushed += 1;
        proof {
            reveal_strlit(" ");
            assert(out@ =~= old(out)@ + spec_spaces(pushed as nat));
        }
    }
}

/// Shows a word in the given format.
pub fn format_word(word: u32, format: &WordFormat) -> (text: String)
    ensures
        text@ == spec_format_word(word, *format),
{
    let mut text = String::new();
    match format {
        WordFormat::Hex => {
            text.append("0x");
            push_padded_digits(&mut text, word, 16, 8);
            assert(text@ =~= spec_format_word(word, *format));
        },
        WordFormat::Binary => {
            let mut digits = String::new();
            push_digits(&mut digits, word, 2);
            let length = digits.as_str().unicode_len();
            if length < 32 {
                push_spaces(&mut text, 32 - length);
            }
            text.append("0b");
            text.append(digits.as_str());
            assert(digits@ =~= spec_digits(word as nat, 2));
            assert(text@ =~= spec_format_word(word, *format));
        },
        WordFormat::Decimal => {
            push_digits(&mut text, word, 10);
            assert(text@ =~= spec_format_word(word, *format));
        },
    }
    text
}

/// The value of a decimal digit.
pub open spec fn spec_digit_value(c: char) -> Option<nat> {
    if '0' <= c <= '9' {
        Some((c as u32 - '0' as u32) as nat)
    } else {
        None
    }
}

/// The number that a run of decimal digits stands for. An empty run, or
/// one with anything but digits in it, stands for none.
pub open spec fn spec_number(digits: Seq<char>) -> Option<nat>
    decreases digits.len(),
{
    if digits.len() == 0 {
        None
    } else if digits.len() == 1 {
        spec_digit_value(digits[0])
    } else {
        match (spec_number(digits.drop_last()), spec_digit_value(digits.last())) {
            (Some(upper), Some(digit)) => Some(10 * upper + digit),
            _ => None,
        }
    }
}

/// The amount that a word stands for: decimal digits, after a `+` or
/// without one, whose number fits the machine's `usize`.
pub open spec fn spec_amount(text: Seq<char>) -> Option<usize> {
    let digits = if text.len() > 0 && text[0] == '+' {
        text.drop_first()
    } else {
        text
    };
    match spec_number(digits) {
        Some(number) => if number <= usize::MAX {
            Some(number as usize)
        } else {
            None
        },
        None => None,
    }
}

/// A run of digits stands for no less than any of its prefixes does.
pub proof fn lemma_number_grows(digits: Seq<char>, n: int)
    requires
        1 <= n <= digits.len(),
        spec_number(digits) is Some,
    ensures
        spec_number(digits.take(n)) matches Some(prefix) && prefix <= spec_number(digits)->Some_0,
    decreases digits.len() - n,
{
    if n == digits.len() {
        assert(digits.take(n) == digits);
    } else {
        assert(digits.drop_last().take(n) == digits.take(n));
        lemma_number_grows(digits.drop_last(), n);
    }
}

/// Reads an amount.
pub fn parse_amount(text: &str) -> (r: Option<usize>)
    ensures
        r == spec_amount(text@),
{
    let length = text.unicode_len();
    let start: usize = if length > 0 && text.get_char(0) == '+' {
        1
    } else {
        0
    };
    let ghost digits = if start == 1 {
        text@.drop_first()
    } else {
        text@
    };
    if start == length {
        return None;
    }
    let mut amount: usize = 0;
    let mut at: usize = start;
    while at < length
        invariant
            start <= at <= length,
            start < length,
            length == text@.len(),
            digits.len() == length - start,
            digits == if text@.len() > 0 && text@[0] == '+' {
                text@.drop_first()
            } else {
                text@
            },
            forall|i: int| 0 <= i < digits.len() ==> digits[i] == text@[start + i],
            at == start ==> amount == 0,
            at > start ==> spec_number(digits.take(at - start)) == Some(amount as nat),
        decreases length - at,
    {
        let c = text.get_char(at);
        let code = c as u32;
        let ghost prefix = digits.take(at - start + 1);
        proof {
            assert(prefix.drop_last() == digits.take(at - start));
            assert(prefix.last() == c);
        }
        if code < 48 || code > 57 {
            proof {
                assert(spec_digit_value(c) is None);
                assert(spec_number(prefix) is None);
                if spec_number(digits) is Some {
                    lemma_number_grows(digits, at - start + 1);
                }
            }
            return None;
        }
        let digit = (code - 48) as usize;
        assert(spec_digit_value(c) == Some(digit as nat));
        if amount > (usize::MAX - digit) / 10 {
            proof {
                assert(spec_number(prefix) == Some((10 * amount + digit) as nat));
                if spec_number(digits) is Some {
                    lemma_number_grows(digits, at - start + 1);
                }
            }
            return None;
        }
        amount = 10 * amount + digit;
        at += 1;
    }
    assert(digits.take(at - start) == digits);
    Some(amount)
}

/// Where a session stands within its line.
#[derive(Debug, PartialEq, Eq, Clone, Copy, Structural)]
pub enum Phase {
    /// A command is due.
    Command,
    /// A command has been carried out; `&&` may follow.
    Trailing,
    /// A command, with what followed it, has come to its end.
    Return,
    /// The line is finished.
    Done,
}

/// What the console tells the user when a command cannot be carried out.
/// An index is that of a word of the line.
#[derive(Debug, PartialEq, Eq, Clone, Copy, Structural)]
pub enum Complaint {
    MissingFileName { command: usize },
    VmNotStarted,
    BadAmount { word: usize },
    MissingAmount { command: usize },
    BadSteps { word: usize },
    UnrecognizedFormat { word: usize },
    MissingFormat { command: usize },
    UnrecognizedCommand { word: usize },
    UnrecognizedTrailing { word: usize },
}

/// What the console does next. An index is that of a word of the line.
#[derive(Debug, PartialEq, Eq, Clone, Copy, Structural)]
pub enum Action {
    /// Nothing: ask again.
    Nothing,
    /// Show the help text.
    Help,
    /// Load the machine from the file that the word names.
    Load { word: usize },
    /// Run so many instructions, and report each that fails.
    Step { amount: usize },
    /// Run until an instruction fails.
    Eval,
    /// Show the registers.
    Registers { format: WordFormat },
    /// Report to the user.
    Complain(Complaint),
    /// Leave the console.
    Exit,
    /// The line is finished: read the next one.
    Finished,
}

/// The view of a [`Session`].
pub struct SpecSession {
    pub position: usize,
    pub repeats: Seq<usize>,
    pub phase: Phase,
}

/// The word at `index`, if the line has one there.
pub open spec fn spec_word(words: Seq<Seq<char>>, index: int) -> Option<Seq<char>> {
    if 0 <= index < words.len() {
        Some(words[index])
    } else {
        None
    }
}

/// The format that a word names.
pub open spec fn spec_format_named(word: Seq<char>) -> Option<WordFormat> {
    if word == "hex"@ {
        Some(WordFormat::Hex)
    } else if word == "binary"@ {
        Some(WordFormat::Binary)
    } else if word == "decimal"@ {
        Some(WordFormat::Decimal)
    } else {
        None
    }
}

impl SpecSession {
    pub open spec fn start() -> SpecSession {
        SpecSession { position: 0, repeats: seq![], phase: Phase::Command }
    }

    /// The session at another word and in another phase.
    pub open spec fn at(self, position: int, phase: Phase) -> SpecSession {
        SpecSession { position: position as usize, repeats: self.repeats, phase }
    }

    /// What the command word `command`, which stands at the session's
    /// position, asks for. A command that needs the machine is refused
    /// before its argument is read where no machine is loaded.
    pub open spec fn command(self, words: Seq<Seq<char>>, vm_loaded: bool, command: Seq<char>)
        -> (Action, SpecSession) {
        let after = self.position + 1;
        let argument = spec_word(words, after);
        if command == "help"@ {
            (Action::Help, self.at(after, Phase::Trailing))
        } else if command == "file"@ || command == "load"@ {
            match argument {
                None => (
                    Action::Complain(Complaint::MissingFileName { command: self.position }),
                    self.at(after, Phase::Return),
                ),
                Some(_) => (
                    Action::Load { word: after as usize },
                    self.at(after + 1, Phase::Trailing),
                ),
            }
        } else if command == "step"@ {
            if !vm_loaded {
                (Action::Complain(Complaint::VmNotStarted), self.at(after, Phase::Return))
            } else {
                match argument {
                    None => (Action::Step { amount: 1 }, self.at(after, Phase::Trailing)),
                    Some(text) => match spec_amount(text) {
                        Some(amount) => (
                            Action::Step { amount },
                            self.at(after + 1, Phase::Trailing),
                        ),
                        None => (
                            Action::Complain(Complaint::BadAmount { word: after as usize }),
                            self.at(after + 1, Phase::Return),
                        ),
                    },
                }
            }
        } else if command == "repeat"@ {
            match argument {
                None => (
                    Action::Complain(Complaint::MissingAmount { command: self.position }),
                    self.at(after, Phase::Return),
                ),
                Some(text) => match spec_amount(text) {
                    Some(amount) => (
                        Action::Nothing,
                        SpecSession {
                            position: (after + 1) as usize,
                            repeats: self.repeats.push(amount),
                            phase: Phase::Return,
                        },
                    ),
                    None => (
                        Action::Complain(Complaint::BadSteps { word: after as usize }),
                        self.at(after + 1, Phase::Return),
                    ),
                },
            }
        } else if command == "eval"@ {
            if !vm_loaded {
                (Action::Complain(Complaint::VmNotStarted), self.at(after, Phase::Return))
            } else {
                (Action::Eval, self.at(after, Phase::Trailing))
            }
        } else if command == "registers"@ {
            if !vm_loaded {
                (Action::Complain(Complaint::VmNotStarted), self.at(after, Phase::Return))
            } else {
                match argument {
                    None => (
                        Action::Complain(Complaint::MissingFormat { command: self.position }),
                        self.at(after, Phase::Return),
                    ),
                    Some(text) => match spec_format_named(text) {
                        Some(format) => (
                            Action::Registers { format },
                            self.at(after + 1, Phase::Trailing),
                        ),
                        None => (
                            Action::Complain(
                                Complaint::UnrecognizedFormat { word: after as usize },
                            ),
                            self.at(after + 1, Phase::Return),
                        ),
                    },
                }
            }
        } else if command == "exit"@ {
            (Action::Exit, self.at(after, Phase::Done))
        } else {
            (
                Action::Complain(Complaint::UnrecognizedCommand { word: self.position }),
                self.at(after, Phase::Trailing),
            )
        }
    }

    /// One step of the session on the words of its line: what the console
    /// is to do, and the session after it.
    ///
    /// A `repeat` opens a round counter. When a command comes to its end
    /// within a `repeat`, the next round starts where the words have got
    /// to; after the last round the `repeat` itself is a command that has
    /// been carried out.
    pub open spec fn next(self, words: Seq<Seq<char>>, vm_loaded: bool) -> (Action, SpecSession) {
        match self.phase {
            Phase::Done => (Action::Finished, self),
            Phase::Return => if self.repeats.len() == 0 {
                (Action::Finished, self.at(self.position as int, Phase::Done))
            } else if self.repeats.last() > 0 {
                (
                    Action::Nothing,
                    SpecSession {
                        position: self.position,
                        repeats: self.repeats.drop_last().push((self.repeats.last() - 1) as usize),
                        phase: Phase::Command,
                    },
                )
            } else {
                (
                    Action::Nothing,
                    SpecSession {
                        position: self.position,
                        repeats: self.repeats.drop_last(),
                        phase: Phase::Trailing,
                    },
                )
            },
            Phase::Trailing => match spec_word(words, self.position as int) {
                None => (Action::Nothing, self.at(self.position as int, Phase::Return)),
                Some(word) => if word == "&&"@ {
                    (Action::Nothing, self.at(self.position + 1, Phase::Command))
                } else {
                    (
                        Action::Complain(Complaint::UnrecognizedTrailing { word: self.position }),
                        self.at(self.position + 1, Phase::Return),
                    )
                },
            },
            Phase::Command => match spec_word(words, self.position as int) {
                None => (Action::Nothing, self.at(self.position as int, Phase::Trailing)),
                Some(word) => self.command(words, vm_loaded, word),
            },
        }
    }
}

/// The state of the console within one line of input.
#[derive(Debug)]
pub struct Session {
    pub position: usize,
    pub repeats: Vec<usize>,
    pub phase: Phase,
}

impl View for Session {
    type V = SpecSession;

    open spec fn view(&self) -> SpecSession {
        SpecSession { position: self.position, repeats: self.repeats@, phase: self.phase }
    }
}

fn word_at(words: &Vec<String>, index: usize) -> (r: Option<&String>)
    ensures
        r is Some <==> index < words.len(),
        r.deep_view() == spec_word(words.deep_view(), index as int),
{
    if index < words.len() {
        Some(&words[index])
    } else {
        None
    }
}

/// Looks a word up among the format names.
pub fn format_from_word(word: &str) -> (r: Option<WordFormat>)
    ensures
        r == spec_format_named(word@),
{
    if same_text(word, "hex") {
        Some(WordFormat::Hex)
    } else if same_text(word, "binary") {
        Some(WordFormat::Binary)
    } else if same_text(word, "decimal") {
        Some(WordFormat::Decimal)
    } else {
        None
    }
}

impl Session {
    /// A session at the start of a line.
    pub fn new() -> (session: Session)
        ensures
            session@ == SpecSession::start(),
    {
        Session { position: 0, repeats: Vec::new(), phase: Phase::Command }
    }

    fn command(self, words: &Vec<String>, vm_loaded: bool, command: &String) -> (r: (
        Action,
        Session,
    ))
        requires
            self.position < words.len(),
        ensures
            (r.0, r.1@) == self@.command(words.deep_view(), vm_loaded, command@),
    {
        let Session { position, repeats, phase: _ } = self;
        let mut repeats = repeats;
        let after = position + 1;
        let argument = word_at(words, after);
        let name = command.as_str();
        let (action, position, phase) = if same_text(name, "help") {
            (Action::Help, after, Phase::Trailing)
        } else if same_text(name, "file") || same_text(name, "load") {
            match argument {
                None => (
                    Action::Complain(Complaint::MissingFileName { command: position }),
                    after,
                    Phase::Return,
                ),
                Some(_) => (Action::Load { word: after }, after + 1, Phase::Trailing),
            }
        } else if same_text(name, "step") {
            if !vm_loaded {
                (Action::Complain(Complaint::VmNotStarted), after, Phase::Return)
            } else {
                match argument {
                    None => (Action::Step { amount: 1 }, after, Phase::Trailing),
                    Some(text) => match parse_amount(text.as_str()) {
                        Some(amount) => (Action::Step { amount }, after + 1, Phase::Trailing),
                        None => (
                            Action::Complain(Complaint::BadAmount { word: after }),
                            after + 1,
                            Phase::Return,
                        ),
                    },
                }
            }
        } else if same_text(name, "repeat") {
            match argument {
                None => (
                    Action::Complain(Complaint::MissingAmount { command: position }),
                    after,
                    Phase::Return,
                ),
                Some(text) => match parse_amount(text.as_str()) {
                    Some(amount) => {
                        repeats.push(amount);
                        (Action::Nothing, after + 1, Phase::Return)
                    },
                    None => (
                        Action::Complain(Complaint::BadSteps { word: after }),
                        after + 1,
                        Phase::Return,
                    ),
                },
            }
        } else if same_text(name, "eval") {
            if !vm_loaded {
                (Action::Complain(Complaint::VmNotStarted), after, Phase::Return)
            } else {
                (Action::Eval, after, Phase::Trailing)
            }
        } else if same_text(name, "registers") {
            if !vm_loaded {
                (Action::Complain(Complaint::VmNotStarted), after, Phase::Return)
            } else {
                match argument {
                    None => (
                        Action::Complain(Complaint::MissingFormat { command: position }),
                        after,
                        Phase::Return,
                    ),
                    Some(text) => match format_from_word(text.as_str()) {
                        Some(format) => (Action::Registers { format }, after + 1, Phase::Trailing),
                        None => (
                            Action::Complain(Complaint::UnrecognizedFormat { word: after }),
                            after + 1,
                            Phase::Return,
                        ),
                    },
                }
            }
        } else if same_text(name, "exit") {
            (Action::Exit, after, Phase::Done)
        } else {
            (
                Action::Complain(Complaint::UnrecognizedCommand { word: position }),
                after,
                Phase::Trailing,
            )
        };
        (action, Session { position, repeats, phase })
    }

    /// One step of the session on the words of its line. `vm_loaded` says
    /// whether the console holds a machine at this moment.
    pub fn next(self, words: &Vec<String>, vm_loaded: bool) -> (r: (Action, Session))
        ensures
            (r.0, r.1@) == self@.next(words.deep_view(), vm_loaded),
    {
        let Session { position, repeats, phase } = self;
        let mut repeats = repeats;
        match phase {
            Phase::Done => (Action::Finished, Session { position, repeats, phase }),
            Phase::Return => {
                if repeats.len() == 0 {
                    (Action::Finished, Session { position, repeats, phase: Phase::Done })
                } else {
                    let rounds = repeats[repeats.len() - 1];
                    repeats.pop();
                    if rounds > 0 {
                        repeats.push(rounds - 1);
                        (Action::Nothing, Session { position, repeats, phase: Phase::Command })
                    } else {
                        (Action::Nothing, Session { position, repeats, phase: Phase::Trailing })
                    }
                }
            },
            Phase::Trailing => match word_at(words, position) {
                None => (Action::Nothing, Session { position, repeats, phase: Phase::Return }),
                Some(word) => if same_text(word.as_str(), "&&") {
                    (
                        Action::Nothing,
                        Session { position: position + 1, repeats, phase: Phase::Command },
                    )
                } else {
                    (
                        Action::Complain(Complaint::UnrecognizedTrailing { word: position }),
                        Session { position: position + 1, repeats, phase: Phase::Return },
                    )
                },
            },
            Phase::Command => match word_at(words, position) {
                None => (Action::Nothing, Session { position, repeats, phase: Phase::Trailing }),
                Some(word) => Session { position, repeats, phase }.command(words, vm_loaded, word),
            },
        }
    }
}

} // verus!
