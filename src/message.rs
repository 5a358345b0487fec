//! Messages bound for the child's input, and the messages of a reload.
use vstd::prelude::*;
use vstd::utf8::encode_utf8;
use vstd::slice::slice_to_vec;
use crate::planner::{extract_runnable_lines, reload_script};

verus! {

/// A message bound for the child's input.
#[derive(Debug, PartialEq, Eq)]
pub enum Message {
    /// Bytes the user typed, forwarded as they came.
    Raw(Vec<u8>),
    /// One line of a reload script, newline-terminated.
    Synthesized(Vec<u8>),
}

impl Message {
    /// The bytes the message carries.
    pub open spec fn bytes(&self) -> Seq<u8> {
        match self {
            Message::Raw(b) => b@,
            Message::Synthesized(b) => b@,
        }
    }
}

/// The command that loads `path` into the interpreter, as a line.
pub open spec fn load_line(path: Seq<char>) -> Seq<char> {
    seq![':', 'l', ' '] + path + seq!['\n']
}

/// `command` as a line.
pub open spec fn command_line(command: Seq<char>) -> Seq<char> {
    command + seq!['\n']
}

/// Whether `ms` holds exactly the messages of a reload of `path` with text `text`.
pub open spec fn is_reload_of(ms: Seq<Message>, path: Seq<char>, text: Seq<char>) -> bool {
    &&& ms.len() == reload_script(text).len() + 1
    &&& ms[0] is Synthesized
    &&& ms[0].bytes() == encode_utf8(load_line(path))
    &&& forall|k: int|
        0 <= k < reload_script(text).len() ==> {
            &&& #[trigger] ms[k + 1] is Synthesized
            &&& ms[k + 1].bytes() == encode_utf8(command_line(reload_script(text)[k]))
        }
}

/// The synthesized message that carries `line`.
fn synthesized_line(line: &str) -> (m: Message)
    ensures
        m is Synthesized,
        m.bytes() == encode_utf8(line@ + seq!['\n']),
{
    let mut s = String::from_str(line);
    s.append("\n");
    proof {
        reveal_strlit("\n");
        assert(s@ =~= line@ + seq!['\n']);
    }
    let b = s.as_str().as_bytes_vec();
    Message::Synthesized(b)
}

/// The messages to send when the file at `path` has changed and now holds
/// `text`: the load command for `path`, then one message per command that the
/// text asks to replay, in order.
pub fn reload_messages(path: &str, text: &str) -> (r: Vec<Message>)
    ensures
        is_reload_of(r@, path@, text@),
{
    let mut first = String::from_str(":l ");
    first.append(path);
    proof {
        reveal_strlit(":l ");
        assert(first@ =~= seq![':', 'l', ' '] + path@);
        assert(first@ + seq!['\n'] =~= load_line(path@));
    }
    let mut r: Vec<Message> = Vec::new();
    r.push(synthesized_line(first.as_str()));
    let lines = extract_runnable_lines(text);
    let mut i: usize = 0;
    while i < lines.len()
        invariant
            lines@.len() == reload_script(text@).len(),
            forall|k: int| 0 <= k < lines@.len() ==> (#[trigger] lines@[k])@ == reload_script(text@)[k],
            i <= lines@.len(),
            r@.len() == i + 1,
            r@[0] is Synthesized,
            r@[0].bytes() == encode_utf8(load_line(path@)),
            forall|k: int|
                0 <= k < i ==> {
                    &&& #[trigger] r@[k + 1] is Synthesized
                    &&& r@[k + 1].bytes() == encode_utf8(command_line(reload_script(text@)[k]))
                },
        decreases lines@.len() - i,
    {
        r.push(synthesized_line(lines[i]));
        i = i + 1;
    }
    r
}

/// The message for a chunk read from the console; an empty chunk marks the
/// end of the input and gives none.
pub fn forward_chunk(chunk: &[u8]) -> (r: Option<Message>)
    ensures
        chunk@.len() == 0 <==> r is None,
        r matches Some(m) ==> m is Raw && m.bytes() == chunk@,
{
    if chunk.len() == 0 {
        None
    } else {
        Some(Message::Raw(slice_to_vec(chunk)))
    }
}

} // verus!
