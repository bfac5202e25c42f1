//! One exchange with the machine: a command goes out, and lines come back until
//! one of them ends the reply.
use crate::text;
use vstd::prelude::*;
use vstd::utf8::*;

verus! {

/// For how many seconds a command may take to be written.
pub const WRITE_SECONDS: u64 = 5;

/// For how many seconds a reply may take to be read.
pub const READ_SECONDS: u64 = 10;

/// What came of the last action of an exchange.
#[derive(Debug)]
pub enum LinkEvent {
    /// The command is written.
    Written,
    /// It could not be written, for a reason.
    WriteFailed(String),
    /// It was not written in time.
    WriteTimeout,
    /// A line came, with its ending.
    Line(String),
    /// No more lines come.
    EndOfStream,
    /// No line could be read, for a reason.
    ReadFailed(String),
    /// The reply was not read in time.
    ReadTimeout,
}

/// Such an event with its texts as characters.
pub enum LinkView {
    Written,
    WriteFailed(Seq<char>),
    WriteTimeout,
    Line(Seq<char>),
    EndOfStream,
    ReadFailed(Seq<char>),
    ReadTimeout,
}

impl View for LinkEvent {
    type V = LinkView;

    open spec fn view(&self) -> LinkView {
        match self {
            LinkEvent::Written => LinkView::Written,
            LinkEvent::WriteFailed(reason) => LinkView::WriteFailed(reason@),
            LinkEvent::WriteTimeout => LinkView::WriteTimeout,
            LinkEvent::Line(line) => LinkView::Line(line@),
            LinkEvent::EndOfStream => LinkView::EndOfStream,
            LinkEvent::ReadFailed(reason) => LinkView::ReadFailed(reason@),
            LinkEvent::ReadTimeout => LinkView::ReadTimeout,
        }
    }
}

/// What an exchange asks for.
#[derive(Debug)]
pub enum LinkAction {
    /// Read the next line.
    ReadLine,
    /// Hand on the reply, or the reason why there is none.
    Finish(Result<String, String>),
}

/// Such an action with its texts as characters.
pub enum LinkActionView {
    ReadLine,
    Finish(Result<Seq<char>, Seq<char>>),
}

impl View for LinkAction {
    type V = LinkActionView;

    open spec fn view(&self) -> LinkActionView {
        match self {
            LinkAction::ReadLine => LinkActionView::ReadLine,
            LinkAction::Finish(result) => LinkActionView::Finish(
                match result {
                    Ok(reply) => Ok(reply@),
                    Err(reason) => Err(reason@),
                },
            ),
        }
    }
}

/// The bytes of a command: the trimmed text and a newline.
pub open spec fn framed(command: Seq<char>) -> Seq<u8> {
    encode_utf8(text::trimmed(command)).push(10)
}

/// Whether a line ends a reply.
pub open spec fn ends_reply(line: Seq<char>) -> bool {
    let said = text::without_trailing_space(line);
    said == "ok"@ || "error:"@.is_prefix_of(said) || "ALARM:"@.is_prefix_of(said)
}

/// The reply as far as it has come after an event.
pub open spec fn reply_after(reply: Seq<char>, event: LinkView) -> Seq<char> {
    match event {
        LinkView::Line(line) => reply + line,
        _ => reply,
    }
}

/// What follows an event, where `reply` has come before it.
pub open spec fn action_after(reply: Seq<char>, event: LinkView) -> LinkActionView {
    match event {
        LinkView::Written => LinkActionView::ReadLine,
        LinkView::WriteFailed(reason) => LinkActionView::Finish(Err(reason)),
        LinkView::WriteTimeout => LinkActionView::Finish(Err("Write timeout"@)),
        LinkView::Line(line) => if ends_reply(line) {
            LinkActionView::Finish(Ok(reply + line))
        } else {
            LinkActionView::ReadLine
        },
        LinkView::EndOfStream => LinkActionView::Finish(Ok(reply)),
        LinkView::ReadFailed(reason) => LinkActionView::Finish(Err(reason)),
        LinkView::ReadTimeout => LinkActionView::Finish(
            Err("Read timeout - no 'ok'/'error'"@),
        ),
    }
}

/// The bytes that a command is sent as.
pub fn frame(command: &str) -> (r: Vec<u8>)
    ensures
        r@ == framed(command@),
{
    let mut r: Vec<u8> = text::trim(command).as_bytes_vec();
    r.push(10);
    r
}

/// Whether a line ends a reply.
pub fn is_last_line(line: &str) -> (r: bool)
    ensures
        r == ends_reply(line@),
{
    let said = text::trim_end(line);
    text::same_text(said, "ok") || text::starts_with(said, "error:") || text::starts_with(
        said,
        "ALARM:",
    )
}

/// An exchange whose command is on its way.
#[derive(Debug)]
pub struct Exchange {
    response: String,
}

impl Exchange {
    /// The reply as far as it has come.
    pub closed spec fn reply(self) -> Seq<char> {
        self.response@
    }

    /// An exchange to which no reply has come yet.
    pub fn start() -> (r: Exchange)
        ensures
            r.reply() == Seq::<char>::empty(),
    {
        Exchange { response: String::new() }
    }

    /// What follows an event.
    pub fn step(&mut self, event: LinkEvent) -> (r: LinkAction)
        ensures
            final(self).reply() == reply_after(old(self).reply(), event@),
            r@ == action_after(old(self).reply(), event@),
    {
        match event {
            LinkEvent::Written => LinkAction::ReadLine,
            LinkEvent::WriteFailed(reason) => LinkAction::Finish(Err(reason)),
            LinkEvent::WriteTimeout => LinkAction::Finish(Err("Write timeout".to_owned())),
            LinkEvent::Line(line) => {
                self.response.append(line.as_str());
                if is_last_line(line.as_str()) {
                    LinkAction::Finish(Ok(self.response.clone()))
                } else {
                    LinkAction::ReadLine
                }
            },
            LinkEvent::EndOfStream => LinkAction::Finish(Ok(self.response.clone())),
            LinkEvent::ReadFailed(reason) => LinkAction::Finish(Err(reason)),
            LinkEvent::ReadTimeout => LinkAction::Finish(
                Err("Read timeout - no 'ok'/'error'".to_owned()),
            ),
        }
    }
}

/// Some lines, one after the other.
pub open spec fn joined(lines: Seq<Seq<char>>) -> Seq<char>
    decreases lines.len(),
{
    if lines.len() == 0 {
        Seq::empty()
    } else {
        joined(lines.drop_last()) + lines.last()
    }
}

/// What an exchange that has just been started has of the reply after some lines.
pub open spec fn reply_after_lines(lines: Seq<Seq<char>>) -> Seq<char>
    decreases lines.len(),
{
    if lines.len() == 0 {
        Seq::empty()
    } else {
        reply_after(reply_after_lines(lines.drop_last()), LinkView::Line(lines.last()))
    }
}

/// A reply is all of the lines that came, in order, up to the one that ends it
/// and that one too. Before it, more is read; where no more lines come, the
/// reply is what there is.
pub proof fn law_a_reply_is_its_lines(lines: Seq<Seq<char>>, line: Seq<char>)
    ensures
        reply_after_lines(lines) == joined(lines),
        ends_reply(line) ==> action_after(reply_after_lines(lines), LinkView::Line(line))
            == LinkActionView::Finish(Ok(joined(lines.push(line)))),
        !ends_reply(line) ==> action_after(reply_after_lines(lines), LinkView::Line(line))
            is ReadLine,
        action_after(reply_after_lines(lines), LinkView::EndOfStream) == LinkActionView::Finish(
            Ok(joined(lines)),
        ),
    decreases lines.len(),
{
    if lines.len() > 0 {
        law_a_reply_is_its_lines(lines.drop_last(), line);
    }
    assert(lines.push(line).drop_last() == lines);
}

/// White space around a command is not sent.
pub proof fn law_commands_are_sent_trimmed(command: Seq<char>)
    ensures
        framed(text::trimmed(command)) == framed(command),
{
    text::law_trimming_is_idempotent(command);
}

/// A reply is read on after each line until one that says `ok`, or an error or an
/// alarm, whatever white space follows it; with that line it is over.
pub proof fn law_a_reply_ends_with_ok_an_error_or_an_alarm(
    reply: Seq<char>,
    said: Seq<char>,
    behind: Seq<char>,
)
    requires
        text::blank(behind),
        said.len() > 0 ==> !text::white_space(said.last()),
    ensures
        said == "ok"@ || text::opens_with(said, "error:"@) || text::opens_with(said, "ALARM:"@)
            ==> action_after(reply, LinkView::Line(said + behind)) == LinkActionView::Finish(
            Ok(reply + (said + behind)),
        ),
        !(said == "ok"@ || text::opens_with(said, "error:"@) || text::opens_with(said, "ALARM:"@))
            ==> action_after(reply, LinkView::Line(said + behind)) == LinkActionView::ReadLine,
        reply_after(reply, LinkView::Line(said + behind)) == reply + (said + behind),
{
    text::law_trailing_space_goes(said, behind);
    text::law_what_a_text_begins_with(said, "error:"@);
    text::law_what_a_text_begins_with(said, "ALARM:"@);
}

/// A command that is written is followed by reading. A failure ends the exchange
/// with its reason, a delay with a word on which one it was, and the end of the
/// stream with what has come. None of this changes what has come.
pub proof fn law_other_events_end_an_exchange(reply: Seq<char>, reason: Seq<char>)
    ensures
        action_after(reply, LinkView::Written) == LinkActionView::ReadLine,
        action_after(reply, LinkView::WriteFailed(reason)) == LinkActionView::Finish(Err(reason)),
        action_after(reply, LinkView::ReadFailed(reason)) == LinkActionView::Finish(Err(reason)),
        action_after(reply, LinkView::WriteTimeout) == LinkActionView::Finish(
            Err("Write timeout"@),
        ),
        action_after(reply, LinkView::ReadTimeout) == LinkActionView::Finish(
            Err("Read timeout - no 'ok'/'error'"@),
        ),
        action_after(reply, LinkView::EndOfStream) == LinkActionView::Finish(Ok(reply)),
        reply_after(reply, LinkView::Written) == reply,
        reply_after(reply, LinkView::WriteFailed(reason)) == reply,
        reply_after(reply, LinkView::ReadFailed(reason)) == reply,
        reply_after(reply, LinkView::WriteTimeout) == reply,
        reply_after(reply, LinkView::ReadTimeout) == reply,
        reply_after(reply, LinkView::EndOfStream) == reply,
{
}

/// A command goes out as the bytes of its text, without the white space around
/// it, and one newline. It is given five seconds, and its reply ten.
pub proof fn law_a_command_is_one_line(before: Seq<char>, core: Seq<char>, behind: Seq<char>)
    requires
        text::blank(before),
        text::bare(core),
        text::blank(behind),
    ensures
        framed(before + core + behind) == encode_utf8(core) + seq![10u8],
        WRITE_SECONDS == 5,
        READ_SECONDS == 10,
{
    text::law_surrounding_space_goes(before, core, behind);
}

/// Only a line that says `ok`, or an error or an alarm, is the last one of a reply.
pub proof fn law_which_lines_are_last(
    line: &str,
    said: Seq<char>,
    behind: Seq<char>,
    last: bool,
)
    requires
        call_ensures(is_last_line, (line,), last),
        line@ == said + behind,
        text::blank(behind),
        said.len() > 0 ==> !text::white_space(said.last()),
    ensures
        last <==> said == "ok"@ || text::opens_with(said, "error:"@) || text::opens_with(
            said,
            "ALARM:"@,
        ),
{
    text::law_trailing_space_goes(said, behind);
    text::law_what_a_text_begins_with(said, "error:"@);
    text::law_what_a_text_begins_with(said, "ALARM:"@);
}

/// An event of an exchange is what it says, with its line or its reason.
pub proof fn law_link_events_say_what_they_are(event: LinkEvent)
    ensures
        match event {
            LinkEvent::Written => event@ is Written,
            LinkEvent::WriteFailed(reason) => event@ == LinkView::WriteFailed(reason@),
            LinkEvent::WriteTimeout => event@ is WriteTimeout,
            LinkEvent::Line(line) => event@ == LinkView::Line(line@),
            LinkEvent::EndOfStream => event@ is EndOfStream,
            LinkEvent::ReadFailed(reason) => event@ == LinkView::ReadFailed(reason@),
            LinkEvent::ReadTimeout => event@ is ReadTimeout,
        },
{
}

/// An action of an exchange is what it says, with the reply or the reason.
pub proof fn law_link_actions_say_what_they_are(action: LinkAction)
    ensures
        match action {
            LinkAction::ReadLine => action@ is ReadLine,
            LinkAction::Finish(Ok(reply)) => action@ == LinkActionView::Finish(Ok(reply@)),
            LinkAction::Finish(Err(reason)) => action@ == LinkActionView::Finish(Err(reason@)),
        },
{
}

/// What goes out for a command are the bytes of its text, without the white space
/// around it, and one newline.
pub proof fn law_what_goes_out_for_a_command(
    command: &str,
    before: Seq<char>,
    core: Seq<char>,
    behind: Seq<char>,
    bytes: Vec<u8>,
)
    requires
        command@ == before + core + behind,
        text::blank(before),
        text::bare(core),
        text::blank(behind),
        call_ensures(frame, (command,), bytes),
    ensures
        bytes@ == encode_utf8(core) + seq![10u8],
{
    law_a_command_is_one_line(before, core, behind);
}

} // verus!
