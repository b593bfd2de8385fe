//! Requests on the control channel: one `+` or `-`, with trailing NUL
//! padding and trailing whitespace ignored.
use vstd::prelude::*;
use crate::step::{decrease, decreased, increase, increased};
use crate::store::trim_end;

verus! {

/// What a caller asks of the daemon.
#[derive(Clone, Copy, Debug, PartialEq, Eq, Structural)]
pub enum Command {
    Increase,
    Decrease,
}

/// `s` without its trailing NUL bytes.
pub open spec fn trim_nuls(s: Seq<u8>) -> Seq<u8>
    decreases s.len(),
{
    if s.len() > 0 && s.last() == 0 {
        trim_nuls(s.drop_last())
    } else {
        s
    }
}

/// What is left of a request once the trailing NUL padding and then the
/// trailing whitespace are removed.
pub open spec fn request_text(request: Seq<u8>) -> Seq<u8> {
    trim_end(trim_nuls(request))
}

/// The command that a request holds, if any: exactly `+` or `-` once the
/// padding is removed.
pub open spec fn command_of(request: Seq<u8>) -> Option<Command> {
    let t = request_text(request);
    if t == seq![43u8] {
        Some(Command::Increase)
    } else if t == seq![45u8] {
        Some(Command::Decrease)
    } else {
        None
    }
}

/// The brightness after `c` is carried out on `current`.
pub open spec fn applied(c: Command, max: int, current: int) -> int {
    match c {
        Command::Increase => increased(max, current),
        Command::Decrease => decreased(max, current),
    }
}

/// Reads the command in a request; `None` for an invalid request.
pub fn parse_command(request: &[u8]) -> (r: Option<Command>)
    ensures
        r == command_of(request@),
{
    let n = request.len();
    let mut j: usize = n;
    assert(request@.subrange(0, n as int) =~= request@);
    while j > 0 && request[j - 1] == 0
        invariant
            j <= n == request@.len(),
            trim_nuls(request@) == trim_nuls(request@.subrange(0, j as int)),
        decreases j,
    {
        assert(request@.subrange(0, j as int).drop_last() =~= request@.subrange(0, j - 1));
        j = j - 1;
    }
    assert(trim_nuls(request@) == request@.subrange(0, j as int));
    while j > 0 && (9 <= request[j - 1] && request[j - 1] <= 13 || request[j - 1] == 32)
        invariant
            j <= n == request@.len(),
            request_text(request@) == trim_end(request@.subrange(0, j as int)),
        decreases j,
    {
        assert(request@.subrange(0, j as int).drop_last() =~= request@.subrange(0, j - 1));
        j = j - 1;
    }
    let ghost t = request@.subrange(0, j as int);
    assert(request_text(request@) == t);
    if j == 1 && request[0] == 43 {
        assert(t =~= seq![43u8]);
        Some(Command::Increase)
    } else if j == 1 && request[0] == 45 {
        assert(t =~= seq![45u8]);
        Some(Command::Decrease)
    } else {
        assert(t.len() != 1 || (t[0] != 43 && t[0] != 45));
        assert(t != seq![43u8]);
        assert(t != seq![45u8]);
        None
    }
}

impl Command {
    /// The brightness after this command is carried out on `current`, for a
    /// store whose maximum is `max`.
    pub fn apply(self, max: u32, current: u32) -> (r: u32)
        ensures
            r == applied(self, max as int, current as int),
            current <= max ==> r <= max,
    {
        match self {
            Command::Increase => increase(max, current),
            Command::Decrease => decrease(max, current),
        }
    }
}

} // verus!
