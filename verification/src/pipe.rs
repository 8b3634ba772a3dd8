//! The `mod-script-pipe` wire protocol: where the pipes are, how a command
//! is framed, and how a reply is read back line by line.

use vstd::prelude::*;
use crate::text::{decimal, decimal_string};

verus! {

/// The pipe Audacity reads commands from, on Windows.
pub const WINDOWS_WRITE_PIPE: &'static str = "\\\\.\\pipe\\ToSrvPipe";

/// The pipe Audacity writes replies to, on Windows.
pub const WINDOWS_READ_PIPE: &'static str = "\\\\.\\pipe\\FromSrvPipe";

/// The FIFO Audacity reads commands from, for the user with id `uid`.
pub fn write_path(uid: u32) -> (res: String)
    ensures
        res@ == "/tmp/audacity_script_pipe.to."@ + decimal(uid as nat),
{
    let mut res = String::from_str("/tmp/audacity_script_pipe.to.");
    let n = decimal_string(uid as u64);
    res.append(n.as_str());
    res
}

/// The FIFO Audacity writes replies to, for the user with id `uid`.
pub fn read_path(uid: u32) -> (res: String)
    ensures
        res@ == "/tmp/audacity_script_pipe.from."@ + decimal(uid as nat),
{
    let mut res = String::from_str("/tmp/audacity_script_pipe.from.");
    let n = decimal_string(uid as u64);
    res.append(n.as_str());
    res
}

/// The line terminator of a command: `"\r\n\0"` on Windows, `"\n"` elsewhere.
pub open spec fn command_terminator(windows: bool) -> Seq<char> {
    if windows {
        "\r\n\0"@
    } else {
        "\n"@
    }
}

/// The bytes written for one command.
pub fn command_payload(command: &str, windows: bool) -> (res: String)
    ensures
        res@ == command@ + command_terminator(windows),
{
    let mut res = String::from_str(command);
    if windows {
        res.append("\r\n\0");
    } else {
        res.append("\n");
    }
    res
}

/// Where reading a reply stands after one more line.
#[derive(Debug)]
pub enum ReplyProgress {
    /// Keep reading lines.
    NeedMore,
    /// The blank line came: this is the whole reply.
    Complete(String),
    /// The pipe reached its end before the blank line.
    Closed,
}

/// Accumulates a reply: every line up to the first line that is just a
/// newline, which ends the reply and is not part of it.
pub struct ReplyReader {
    message: String,
}

impl View for ReplyReader {
    type V = Seq<char>;

    closed spec fn view(&self) -> Seq<char> {
        self.message@
    }
}

/// The message text for the reply reader's end-of-pipe error.
pub open spec fn pipe_closed_text() -> Seq<char> {
    "Audacity pipe closed (it may have crashed)"@
}

impl ReplyReader {
    /// A reader that has seen no line yet.
    pub fn new() -> (res: Self)
        ensures
            res@ == Seq::<char>::empty(),
    {
        ReplyReader { message: String::new() }
    }

    /// Takes the next line read from the pipe, with the number of bytes the
    /// read returned (0 at the end of the pipe).
    pub fn feed(&mut self, line: &str, bytes_read: usize) -> (res: ReplyProgress)
        ensures
            bytes_read == 0 ==> res is Closed && final(self)@ == old(self)@,
            bytes_read != 0 && line@ == "\n"@ ==> (res matches ReplyProgress::Complete(m) && m@
                == old(self)@) && final(self)@ == old(self)@,
            bytes_read != 0 && line@ != "\n"@ ==> res is NeedMore && final(self)@ == old(self)@
                + line@,
    {
        if bytes_read == 0 {
            return ReplyProgress::Closed;
        }
        let nl = String::from_str("\n");
        let l = String::from_str(line);
        if l == nl {
            ReplyProgress::Complete(self.message.clone())
        } else {
            self.message.append(line);
            ReplyProgress::NeedMore
        }
    }

    /// The error text when the pipe closes mid-reply.
    pub fn closed_message() -> (res: String)
        ensures
            res@ == pipe_closed_text(),
    {
        String::from_str("Audacity pipe closed (it may have crashed)")
    }
}

/// The reply a sequence of lines read from the pipe yields: the
/// concatenation of the lines before the first blank line, `None` when an
/// empty read (the end of the pipe) or the end of the lines comes first.
pub open spec fn reply_of(lines: Seq<Seq<char>>) -> Option<Seq<char>>
    decreases lines.len(),
{
    if lines.len() == 0 || lines[0].len() == 0 {
        None
    } else if lines[0] == "\n"@ {
        Some(Seq::<char>::empty())
    } else {
        match reply_of(lines.drop_first()) {
            Some(rest) => Some(lines[0] + rest),
            None => None,
        }
    }
}

/// A reply is the lines before the first blank line, joined in order: when
/// line `i` is the first blank line and no line before it is an empty read,
/// the reply is the concatenation of lines `0..i`; and an empty read before
/// any blank line gives no reply.
pub proof fn lemma_reply_is_lines_before_blank(lines: Seq<Seq<char>>, i: int)
    requires
        0 <= i <= lines.len(),
        forall|j: int| 0 <= j < i ==> #[trigger] lines[j] != "\n"@,
    ensures
        i < lines.len() && lines[i] == "\n"@ && (forall|j: int| 0 <= j < i ==> #[trigger] lines[j].len()
            > 0) ==> reply_of(lines) == Some(lines.subrange(0, i).flatten()),
        i < lines.len() && lines[i].len() == 0 ==> reply_of(lines) is None,
    decreases i,
{
    reveal_strlit("\n");
    if i > 0 {
        let rest = lines.drop_first();
        assert forall|j: int| 0 <= j < i - 1 implies #[trigger] rest[j] != "\n"@ by {
            assert(rest[j] == lines[j + 1]);
        }
        lemma_reply_is_lines_before_blank(rest, i - 1);
        if i < lines.len() && lines[i] == "\n"@ && (forall|j: int| 0 <= j < i ==> #[trigger] lines[j].len() > 0) {
            assert(rest[i - 1] == lines[i]);
            assert forall|j: int| 0 <= j < i - 1 implies #[trigger] rest[j].len() > 0 by {
                assert(rest[j] == lines[j + 1]);
            }
            assert(lines[0] != "\n"@);
            assert(lines[0].len() > 0);
            assert(lines.subrange(0, i).drop_first() =~= rest.subrange(0, i - 1));
            assert(lines.subrange(0, i).first() == lines[0]);
        }
        if i < lines.len() && lines[i].len() == 0 {
            assert(rest[i - 1] == lines[i]);
        }
    } else {
        assert(lines.subrange(0, 0) =~= Seq::<Seq<char>>::empty());
    }
}

/// Reads a whole reply from lines already read from the pipe, in order, an
/// empty line standing for an empty read: `Ok` with the reply when a blank
/// line comes, `Err` with the end-of-pipe message otherwise.
pub fn reply_from_lines(lines: &Vec<String>) -> (res: Result<String, String>)
    ensures
        match reply_of(lines@.map_values(|l: String| l@)) {
            Some(m) => res matches Ok(r) && r@ == m,
            None => res matches Err(e) && e@ == pipe_closed_text(),
        },
{
    let ghost all = lines@.map_values(|l: String| l@);
    let mut reader = ReplyReader::new();
    let n = lines.len();
    let mut i: usize = 0;
    assert(all.subrange(0, n as int) =~= all);
    while i < n
        invariant
            n == lines@.len(),
            all == lines@.map_values(|l: String| l@),
            i <= n,
            reply_of(all) == match reply_of(all.subrange(i as int, n as int)) {
                Some(rest) => Some(reader@ + rest),
                None => None,
            },
        decreases n - i,
    {
        assert(all.subrange(i as int, n as int).drop_first() =~= all.subrange(i + 1, n as int));
        assert(all.subrange(i as int, n as int)[0] == lines@[i as int]@);
        let ghost before = reader@;
        let bytes_read: usize = if lines[i].as_str().is_empty() {
            0
        } else {
            1
        };
        match reader.feed(lines[i].as_str(), bytes_read) {
            ReplyProgress::Complete(m) => {
                assert(before + Seq::<char>::empty() =~= before);
                return Ok(m);
            },
            ReplyProgress::Closed => {
                return Err(ReplyReader::closed_message());
            },
            ReplyProgress::NeedMore => {
                assert(before + (lines@[i as int]@ + Seq::<char>::empty()) =~= before + lines@[i as int]@);
                assert forall|rest: Seq<char>| (before + (lines@[i as int]@ + rest)) =~= (before
                    + lines@[i as int]@) + rest by {}
            },
        }
        i = i + 1;
    }
    Err(ReplyReader::closed_message())
}

} // verus!
