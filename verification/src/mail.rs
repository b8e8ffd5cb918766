//! The message that carries a verification code.

use crate::address::Address;
use crate::error::Error;
use crate::outside::build_message;
use vstd::prelude::*;
use vstd::string::*;

verus! {

/// The last moment that a message can be dated with: the end of the year 9999,
/// in seconds since the start of 1970.
pub const LAST_DATE: u64 = 253402300799;

/// How the body of a message is to be read; always encoded as UTF-8.
#[derive(Clone, Copy, Debug, PartialEq, Eq, Structural)]
pub enum ContentType {
    /// As plain text.
    TextPlain,
}

/// Whether a character is white space, which is trimmed off both ends of a
/// name.
pub open spec fn blank(c: char) -> bool {
    let n = c as u32;
    ||| 0x9 <= n <= 0xd
    ||| n == 0x20
    ||| n == 0x85
    ||| n == 0xa0
    ||| n == 0x1680
    ||| 0x2000 <= n <= 0x200a
    ||| n == 0x2028
    ||| n == 0x2029
    ||| n == 0x202f
    ||| n == 0x205f
    ||| n == 0x3000
}

/// Whether a character ends a line.
pub open spec fn line_break(c: char) -> bool {
    c == '\n' || c == '\r'
}

/// Whether a name can be written beside an address: its lines do not break
/// anywhere between its first visible character and its last.
pub open spec fn writable(name: Seq<char>) -> bool {
    forall|i: int, j: int, k: int|
        0 <= i < j < k < name.len() && !blank(#[trigger] name[i]) && !blank(#[trigger] name[k])
            ==> !line_break(#[trigger] name[j])
}

/// Whether a character is white space.
fn is_blank(c: char) -> (found: bool)
    ensures
        found == blank(c),
{
    let n: u32 = c as u32;
    (0x9 <= n && n <= 0xd) || n == 0x20 || n == 0x85 || n == 0xa0 || n == 0x1680 || (0x2000 <= n
        && n <= 0x200a) || n == 0x2028 || n == 0x2029 || n == 0x202f || n == 0x205f || n == 0x3000
}

/// Whether a name can be written beside an address.
fn is_writable(name: &str) -> (found: bool)
    ensures
        found == writable(name@),
{
    let len = name.unicode_len();
    let mut started: bool = false;
    let mut broken: bool = false;
    let mut first: usize = 0;
    let mut at: usize = 0;
    let mut i: usize = 0;
    while i < len
        invariant
            len == name@.len(),
            i <= len,
            started <==> exists|k: int| 0 <= k < i && !blank(#[trigger] name@[k]),
            started ==> first < i && !blank(name@[first as int]),
            broken ==> started && first < at < i && line_break(name@[at as int]),
            forall|m: int, j: int|
                0 <= m < j < i && !blank(#[trigger] name@[m]) && line_break(#[trigger] name@[j])
                    ==> broken,
            forall|m: int, j: int, k: int|
                0 <= m < j < k < i && !blank(#[trigger] name@[m]) && !blank(#[trigger] name@[k])
                    ==> !line_break(#[trigger] name@[j]),
        decreases len - i,
    {
        let c = name.get_char(i);
        if !is_blank(c) {
            if broken {
                assert(!blank(name@[first as int]) && line_break(name@[at as int]) && !blank(
                    name@[i as int],
                ));
                return false;
            }
            if !started {
                started = true;
                first = i;
            }
        } else if started && (c == '\n' || c == '\r') {
            broken = true;
            at = i;
        }
        i += 1;
    }
    true
}

/// Who a message is from: an address, with a name if there is one.
#[derive(Debug)]
pub struct Mailbox {
    name: Option<String>,
    address: Address,
}

/// What a [`Mailbox`] says.
pub struct SenderText {
    /// The name shown beside the address.
    pub name: Option<Seq<char>>,
    /// The address itself.
    pub address: Seq<char>,
}

impl View for Mailbox {
    type V = SenderText;

    closed spec fn view(&self) -> SenderText {
        SenderText { name: optional_text(self.name), address: self.address@ }
    }
}

impl Mailbox {
    #[verifier::type_invariant]
    spec fn name_is_writable(self) -> bool {
        self.name matches Some(name) ==> writable(name@)
    }

    /// The mailbox with an address and a name, unless the name cannot be
    /// written.
    pub fn new(name: Option<String>, address: Address) -> (mailbox: Option<Self>)
        ensures
            mailbox is Some <==> (name matches Some(name) ==> writable(name@)),
            mailbox matches Some(mailbox) ==> mailbox@ == (SenderText {
                name: optional_text(name),
                address: address@,
            }),
    {
        if let Some(name) = &name {
            if !is_writable(name.as_str()) {
                return None;
            }
        }
        Some(Mailbox { name, address })
    }

    /// Puts a message from this mailbox together.
    fn message_to(
        &self,
        subject: String,
        content_type: ContentType,
        recipient: &Address,
        date: u64,
        body: String,
    ) -> (built: Result<lettre::Message, lettre::error::Error>)
        requires
            date <= LAST_DATE,
        ensures
            built == crate::outside::message_of(
                self@.name,
                self@.address,
                subject@,
                content_type,
                recipient@,
                date,
                body@,
            ),
    {
        proof {
            use_type_invariant(self);
        }
        build_message(
            self.name.clone(),
            self.address.as_str(),
            subject,
            content_type,
            recipient.as_str(),
            date,
            body,
        )
    }
}

/// The parts that all verification messages have in common.
#[derive(Debug)]
pub struct MessageTemplate {
    /// Who the messages are from.
    pub from: Mailbox,
    /// What the messages are about.
    pub subject: String,
    /// How their bodies are to be read.
    pub content_type: ContentType,
}

/// The characters of `text`, if there is one.
pub open spec fn optional_text(text: Option<String>) -> Option<Seq<char>> {
    match text {
        Some(text) => Some(text@),
        None => None,
    }
}

/// The decimal digit for `n`.
pub open spec fn digit(n: int) -> char {
    (48 + n) as char
}

/// The last `width` decimal digits of `n`, padded with zeros.
pub open spec fn padded(n: int, width: nat) -> Seq<char>
    decreases width,
{
    if width == 0 {
        Seq::empty()
    } else {
        padded(n / 10, (width - 1) as nat).push(digit(n % 10))
    }
}

/// A verification code as it is written: padded with zeros to 6 digits.
pub open spec fn spelled(code: u16) -> Seq<char> {
    padded(code as int, 6)
}

/// Appends the digit for `n` to `text`.
fn push_digit(text: &mut String, n: u16)
    requires
        n < 10,
    ensures
        final(text)@ == old(text)@.push(digit(n as int)),
{
    proof {
        reveal_strlit("0");
        reveal_strlit("1");
        reveal_strlit("2");
        reveal_strlit("3");
        reveal_strlit("4");
        reveal_strlit("5");
        reveal_strlit("6");
        reveal_strlit("7");
        reveal_strlit("8");
        reveal_strlit("9");
    }
    let glyph = match n {
        0 => "0",
        1 => "1",
        2 => "2",
        3 => "3",
        4 => "4",
        5 => "5",
        6 => "6",
        7 => "7",
        8 => "8",
        _ => "9",
    };
    assert(glyph@ =~= seq![digit(n as int)]);
    text.append(glyph);
    assert(text@ =~= old(text)@.push(digit(n as int)));
}

/// Writes a verification code, padded with zeros to 6 digits.
pub fn code_text(code: u16) -> (text: String)
    ensures
        text@ == spelled(code),
        text@.len() == 6,
        100000 * (text@[0] as int - '0' as int) + 10000 * (text@[1] as int - '0' as int) + 1000 * (
        text@[2] as int - '0' as int) + 100 * (text@[3] as int - '0' as int) + 10 * (text@[4] as int
            - '0' as int) + (text@[5] as int - '0' as int) == code,
{
    let mut text = String::new();
    push_digit(&mut text, 0);
    push_digit(&mut text, code / 10000);
    push_digit(&mut text, code / 1000 % 10);
    push_digit(&mut text, code / 100 % 10);
    push_digit(&mut text, code / 10 % 10);
    push_digit(&mut text, code % 10);
    proof {
        reveal_with_fuel(padded, 7);
        let n = code as int;
        assert(n / 10 / 10 == n / 100);
        assert(n / 100 / 10 == n / 1000);
        assert(n / 1000 / 10 == n / 10000);
        assert(n / 10000 / 10 == 0);
        assert(n / 10000 % 10 == n / 10000);
        law_written_code_reads_back(code);
    }
    text
}

/// A request for a verification code that was accepted: the code is waiting
/// for its owner and has yet to be sent.
#[derive(Debug)]
pub struct Submission {
    /// Where the code goes.
    pub address: Address,
    /// The code.
    pub code: u16,
}

impl Submission {
    /// The line that records the submission: the address and the code.
    pub fn log_line(&self) -> (line: String)
        ensures
            line@ == self.address@ + ": "@ + spelled(self.code),
    {
        let mut line = String::new();
        line.append(self.address.as_str());
        line.append(": ");
        line.append(code_text(self.code).as_str());
        assert(line@ =~= self.address@ + ": "@ + spelled(self.code));
        line
    }
}

impl MessageTemplate {
    /// The template of all verification messages from `from`.
    pub fn new(from: Mailbox) -> (template: Self)
        ensures
            template.from == from,
            template.subject@ == "Fire-Alarm Verification Code"@,
            template.content_type == ContentType::TextPlain,
    {
        MessageTemplate {
            from,
            subject: "Fire-Alarm Verification Code".to_owned(),
            content_type: ContentType::TextPlain,
        }
    }

    /// What the message builder makes of this template for a submission.
    pub open spec fn built(
        self,
        submission: Submission,
        now: u64,
    ) -> Result<lettre::Message, lettre::error::Error> {
        crate::outside::message_of(
            self.from@.name,
            self.from@.address,
            self.subject@,
            self.content_type,
            submission.address@,
            now,
            spelled(submission.code),
        )
    }

    /// Puts the message for a submission together: from the template's sender
    /// to the submitter, dated `now` seconds after the start of 1970, with the
    /// code as its body.
    pub fn message(&self, submission: &Submission, now: u64) -> (message: Result<
        lettre::Message,
        Error,
    >)
        requires
            now <= LAST_DATE,
        ensures
            message == finished(self.built(*submission, now)),
    {
        finish_message(
            self.from.message_to(
                self.subject.clone(),
                self.content_type,
                &submission.address,
                now,
                code_text(submission.code),
            ),
        )
    }
}

/// What a request for a message comes to, given what the builder made of it.
pub open spec fn finished(
    built: Result<lettre::Message, lettre::error::Error>,
) -> Result<lettre::Message, Error> {
    match built {
        Ok(message) => Ok(message),
        Err(fault) => Err(Error::EmailError(fault)),
    }
}

/// Hands on the message that the builder made, or its objection.
pub fn finish_message(built: Result<lettre::Message, lettre::error::Error>) -> (message: Result<
    lettre::Message,
    Error,
>)
    ensures
        message == finished(built),
{
    match built {
        Ok(message) => Ok(message),
        Err(fault) => Err(Error::EmailError(fault)),
    }
}

/// Two numbers with the same last digits are the same, if they have no others.
proof fn lemma_padded_apart(a: int, b: int, width: nat)
    requires
        0 <= a < vstd::arithmetic::power::pow(10, width),
        0 <= b < vstd::arithmetic::power::pow(10, width),
        padded(a, width) == padded(b, width),
    ensures
        a == b,
    decreases width,
{
    reveal(vstd::arithmetic::power::pow);
    if width > 0 {
        let shorter = (width - 1) as nat;
        assert(padded(a, width).last() == digit(a % 10));
        assert(padded(b, width).last() == digit(b % 10));
        assert(padded(a, width).drop_last() =~= padded(a / 10, shorter));
        assert(padded(b, width).drop_last() =~= padded(b / 10, shorter));
        lemma_padded_apart(a / 10, b / 10, shorter);
    }
}

/// Every code is written with 6 decimal digits.
pub proof fn law_code_is_six_digits(code: u16)
    ensures
        spelled(code).len() == 6,
        forall|i: int| 0 <= i < 6 ==> '0' <= #[trigger] spelled(code)[i] <= '9',
{
    reveal_with_fuel(padded, 7);
}

/// No two codes are written alike, so what a message says names one code.
pub proof fn law_codes_are_told_apart(a: u16, b: u16)
    requires
        spelled(a) == spelled(b),
    ensures
        a == b,
{
    reveal_with_fuel(vstd::arithmetic::power::pow, 7);
    lemma_padded_apart(a as int, b as int, 6);
}

/// Reading the 6 characters of a code back as a decimal number gives the code.
pub proof fn law_written_code_reads_back(code: u16)
    ensures
        spelled(code).len() == 6,
        forall|i: int| 0 <= i < 6 ==> '0' <= #[trigger] spelled(code)[i] <= '9',
        100000 * (spelled(code)[0] as int - '0' as int) + 10000 * (spelled(code)[1] as int
            - '0' as int) + 1000 * (spelled(code)[2] as int - '0' as int) + 100 * (spelled(
            code,
        )[3] as int - '0' as int) + 10 * (spelled(code)[4] as int - '0' as int) + (spelled(
            code,
        )[5] as int - '0' as int) == code,
{
    reveal_with_fuel(padded, 7);
    lemma_digits(code as int);
}

/// A number below a million is made up of its 6 digits.
proof fn lemma_digits(n: int)
    requires
        0 <= n < 1000000,
    ensures
        100000 * (n / 10 / 10 / 10 / 10 / 10 % 10) + 10000 * (n / 10 / 10 / 10 / 10 % 10) + 1000
            * (n / 10 / 10 / 10 % 10) + 100 * (n / 10 / 10 % 10) + 10 * (n / 10 % 10) + n % 10
            == n,
{
    let a = n / 10;
    let b = a / 10;
    let c = b / 10;
    let d = c / 10;
    let e = d / 10;
    assert(n == 10 * a + n % 10);
    assert(a == 10 * b + a % 10);
    assert(b == 10 * c + b % 10);
    assert(c == 10 * d + c % 10);
    assert(d == 10 * e + d % 10);
    assert(0 <= e < 10);
}

/// Two numbers with the same last digit and the same rest.
proof fn lemma_last_digit(a: int, x: int, b: int, y: int)
    requires
        10 * a + x == 10 * b + y,
        0 <= x < 10,
        0 <= y < 10,
    ensures
        a == b,
        x == y,
{
}

/// Two ways to make up a number of 6 digits are the same.
proof fn lemma_same_digits(a: Seq<int>, b: Seq<int>)
    requires
        forall|i: int| 0 <= i < 6 ==> 0 <= #[trigger] a[i] < 10 && 0 <= b[i] < 10,
        100000 * a[0] + 10000 * a[1] + 1000 * a[2] + 100 * a[3] + 10 * a[4] + a[5] == 100000 * b[0]
            + 10000 * b[1] + 1000 * b[2] + 100 * b[3] + 10 * b[4] + b[5],
    ensures
        forall|i: int| 0 <= i < 6 ==> #[trigger] a[i] == b[i],
{
    assert(0 <= a[0] < 10 && 0 <= a[1] < 10 && 0 <= a[2] < 10 && 0 <= a[3] < 10 && 0 <= a[4] < 10
        && 0 <= a[5] < 10);
    lemma_last_digit(
        10000 * a[0] + 1000 * a[1] + 100 * a[2] + 10 * a[3] + a[4],
        a[5],
        10000 * b[0] + 1000 * b[1] + 100 * b[2] + 10 * b[3] + b[4],
        b[5],
    );
    lemma_last_digit(
        1000 * a[0] + 100 * a[1] + 10 * a[2] + a[3],
        a[4],
        1000 * b[0] + 100 * b[1] + 10 * b[2] + b[3],
        b[4],
    );
    lemma_last_digit(
        100 * a[0] + 10 * a[1] + a[2],
        a[3],
        100 * b[0] + 10 * b[1] + b[2],
        b[3],
    );
    lemma_last_digit(10 * a[0] + a[1], a[2], 10 * b[0] + b[1], b[2]);
    lemma_last_digit(a[0], a[1], b[0], b[1]);
}

/// The message for a submission is built from the template's sender, subject and
/// content type, goes to the submitter under the given date, and has as its
/// body the one way to write the code with 6 decimal digits.
pub proof fn law_message_takes_the_code_to_the_submitter(
    template: MessageTemplate,
    submission: Submission,
    now: u64,
    body: Seq<char>,
)
    requires
        body.len() == 6,
        forall|i: int| 0 <= i < 6 ==> '0' <= #[trigger] body[i] <= '9',
        100000 * (body[0] as int - '0' as int) + 10000 * (body[1] as int - '0' as int) + 1000 * (
        body[2] as int - '0' as int) + 100 * (body[3] as int - '0' as int) + 10 * (body[4] as int
            - '0' as int) + (body[5] as int - '0' as int) == submission.code,
    ensures
        template.built(submission, now) == crate::outside::message_of(
            template.from@.name,
            template.from@.address,
            template.subject@,
            template.content_type,
            submission.address@,
            now,
            body,
        ),
{
    let text = spelled(submission.code);
    law_written_code_reads_back(submission.code);
    let zero = '0' as int;
    let a = body.map_values(|c: char| c as int - zero);
    let b = text.map_values(|c: char| c as int - zero);
    assert forall|i: int| 0 <= i < 6 implies 0 <= #[trigger] a[i] < 10 && 0 <= b[i] < 10 by {
        assert('0' <= body[i] <= '9' && '0' <= text[i] <= '9');
    }
    lemma_same_digits(a, b);
    assert forall|i: int| 0 <= i < 6 implies body[i] == text[i] by {
        assert(a[i] == b[i]);
    }
    assert(body =~= text);
}

/// What the builder made is handed on as it is; its objection becomes the error.
pub proof fn law_built_message_is_handed_on(
    message: lettre::Message,
    fault: lettre::error::Error,
)
    ensures
        finished(Ok::<lettre::Message, lettre::error::Error>(message)) == Ok::<
            lettre::Message,
            Error,
        >(message),
        finished(Err::<lettre::Message, lettre::error::Error>(fault)) == Err::<
            lettre::Message,
            Error,
        >(Error::EmailError(fault)),
{
}

/// A name is neither lost nor made up.
pub proof fn law_name_is_kept(text: Option<String>)
    ensures
        optional_text(text) is Some <==> text is Some,
        text matches Some(text_there) ==> optional_text(text) == Some(text_there@),
{
}

/// A name that fits on a line can be written, however long; so can one that has
/// line breaks at its ends only. A line break between two printed characters
/// makes a name impossible to write.
pub proof fn law_names_on_one_line_are_writable(
    start: Seq<char>,
    name: Seq<char>,
    end: Seq<char>,
    k: int,
)
    requires
        forall|i: int| 0 <= i < start.len() ==> 9 <= (#[trigger] start[i]) as u32 <= 13 || start[i]
            == ' ',
        forall|i: int| 0 <= i < end.len() ==> 9 <= (#[trigger] end[i]) as u32 <= 13 || end[i]
            == ' ',
    ensures
        (forall|i: int|
            0 <= i < name.len() ==> (#[trigger] name[i]) != '\n' && name[i] != '\r') ==> writable(
            start + name + end,
        ),
        0 < k < name.len() - 1 && (name[k] == '\n' || name[k] == '\r') && '!' <= name[0] <= '~'
            && '!' <= name[name.len() - 1] <= '~' ==> !writable(start + name + end),
{
    let whole = start + name + end;
    if forall|i: int| 0 <= i < name.len() ==> (#[trigger] name[i]) != '\n' && name[i] != '\r' {
        assert forall|i: int, j: int, m: int|
            0 <= i < j < m < whole.len() && !blank(#[trigger] whole[i]) && !blank(
                #[trigger] whole[m],
            ) implies !line_break(#[trigger] whole[j]) by {
            if i < start.len() {
                assert(whole[i] == start[i]);
            }
            if m >= start.len() + name.len() {
                assert(whole[m] == end[m - start.len() - name.len()]);
            }
            assert(whole[j] == name[j - start.len()]);
        }
    }
    if 0 < k < name.len() - 1 && (name[k] == '\n' || name[k] == '\r') && '!' <= name[0] <= '~'
        && '!' <= name[name.len() - 1] <= '~' {
        let first = start.len() as int;
        let last = start.len() + name.len() - 1;
        assert(whole[first] == name[0]);
        assert(whole[last] == name[name.len() - 1]);
        assert(whole[start.len() + k] == name[k]);
        assert(line_break(whole[start.len() + k]));
    }
}

/// Which characters are white space: those of the ASCII range, and those that
/// Unicode lists besides.
pub proof fn law_white_space_is_what_unicode_lists(c: char)
    ensures
        (c as u32) < 128 ==> (blank(c) <==> c == ' ' || c == '\n' || c == '\r' || c == '\t' || c
            as u32 == 11 || c as u32 == 12),
        128 <= (c as u32) ==> (blank(c) <==> c as u32 == 0x85 || c as u32 == 0xa0 || c as u32
            == 0x1680 || 0x2000 <= (c as u32) <= 0x200a || c as u32 == 0x2028 || c as u32 == 0x2029
            || c as u32 == 0x202f || c as u32 == 0x205f || c as u32 == 0x3000),
        line_break(c) <==> c as u32 == 10 || c as u32 == 13,
{
}

/// What a code is written as reads back as the code, and the line that records a
/// submission has its address, a separator and what the code is written as.
pub proof fn law_code_is_written_as_itself(
    submission: Submission,
    text: String,
    line: String,
)
    requires
        call_ensures(code_text, (submission.code,), text),
        call_ensures(Submission::log_line, (&submission,), line),
    ensures
        text@.len() == 6,
        forall|i: int| 0 <= i < 6 ==> '0' <= #[trigger] text@[i] <= '9',
        100000 * (text@[0] as int - '0' as int) + 10000 * (text@[1] as int - '0' as int) + 1000 * (
        text@[2] as int - '0' as int) + 100 * (text@[3] as int - '0' as int) + 10 * (text@[4] as int
            - '0' as int) + (text@[5] as int - '0' as int) == submission.code,
        line@ == submission.address@ + ": "@ + text@,
{
    law_written_code_reads_back(submission.code);
}

/// A template puts every message under its sender and the one subject, as plain
/// text, and a mailbox has the name and the address that it was made of.
pub proof fn law_template_is_made_for_its_sender(
    name: Option<String>,
    address: Address,
    mailbox: Option<Mailbox>,
    template: MessageTemplate,
)
    requires
        call_ensures(Mailbox::new, (name, address), mailbox),
        mailbox is Some ==> call_ensures(MessageTemplate::new, (mailbox->Some_0,), template),
    ensures
        name is None ==> mailbox is Some,
        name is Some && (forall|i: int|
            0 <= i < name->Some_0@.len() ==> (#[trigger] name->Some_0@[i]) != '\n'
                && name->Some_0@[i] != '\r') ==> mailbox is Some,
        mailbox is Some ==> {
            &&& template.from@.address == address@
            &&& template.from@.name is Some <==> name is Some
            &&& name is Some ==> template.from@.name == Some(name->Some_0@)
            &&& template.subject@ == "Fire-Alarm Verification Code"@
            &&& template.content_type == ContentType::TextPlain
        },
{
}

/// The message that a template gives for a submission is what the builder makes
/// of the template, the submitter's address, the date, and what the code is
/// written as; only the builder's objection is an error.
pub proof fn law_message_is_what_the_builder_makes(
    template: MessageTemplate,
    submission: Submission,
    now: u64,
    text: String,
    message: Result<lettre::Message, Error>,
)
    requires
        call_ensures(MessageTemplate::message, (&template, &submission, now), message),
        call_ensures(code_text, (submission.code,), text),
    ensures
        ({
            let built = crate::outside::message_of(
                template.from@.name,
                template.from@.address,
                template.subject@,
                template.content_type,
                submission.address@,
                now,
                text@,
            );
            &&& built is Ok ==> message == Ok::<lettre::Message, Error>(built->Ok_0)
            &&& built is Err ==> message == Err::<lettre::Message, Error>(
                Error::EmailError(built->Err_0),
            )
        }),
{
}

/// A message that was built is handed on, and an objection is the error.
pub proof fn law_finishing_hands_on_what_was_built(
    built: Result<lettre::Message, lettre::error::Error>,
    message: Result<lettre::Message, Error>,
)
    requires
        call_ensures(finish_message, (built,), message),
    ensures
        built matches Ok(made) ==> message == Ok::<lettre::Message, Error>(made),
        built matches Err(fault) ==> message == Err::<lettre::Message, Error>(
            Error::EmailError(fault),
        ),
{
}

} // verus!
