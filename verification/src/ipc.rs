//! The one-line protocol by which `gpotlight toggle` reaches a running
//! instance.
use vstd::prelude::*;

verus! {

/// A command sent over the control socket.
#[derive(Debug, Clone, Copy, PartialEq, Eq, Structural)]
pub enum IpcCommand {
    Toggle,
}

/// The bytes of the toggle command: `toggle` and a newline.
pub open spec fn toggle_bytes() -> Seq<u8> {
    seq![116u8, 111u8, 103u8, 103u8, 108u8, 101u8, 10u8]
}

/// The bytes a client writes to toggle the launcher.
pub fn toggle_command() -> (r: Vec<u8>)
    ensures
        r@ == toggle_bytes(),
{
    let r: Vec<u8> = vec![116u8, 111u8, 103u8, 103u8, 108u8, 101u8, 10u8];
    assert(r@ =~= toggle_bytes());
    r
}

/// The command that a message read from the socket carries: a toggle
/// where the bytes start with the toggle command, nothing otherwise.
pub fn parse_command(bytes: &[u8]) -> (r: Option<IpcCommand>)
    ensures
        r == (if bytes@.len() >= 7 && bytes@.subrange(0, 7) == toggle_bytes() {
            Some(IpcCommand::Toggle)
        } else {
            None
        }),
{
    let expected = toggle_command();
    if bytes.len() < 7 {
        return None;
    }
    let mut i: usize = 0;
    while i < 7
        invariant
            bytes@.len() >= 7,
            expected@ == toggle_bytes(),
            i <= 7,
            forall|k: int| 0 <= k < i ==> bytes@[k] == toggle_bytes()[k],
        decreases 7 - i,
    {
        if bytes[i] != expected[i] {
            assert(bytes@.subrange(0, 7)[i as int] != toggle_bytes()[i as int]);
            return None;
        }
        i = i + 1;
    }
    assert(bytes@.subrange(0, 7) =~= toggle_bytes());
    Some(IpcCommand::Toggle)
}

/// What a client sends to toggle the launcher, the server reads as a
/// toggle.
pub proof fn toggle_round_trip(sent: Seq<u8>)
    requires
        sent == toggle_bytes(),
    ensures
        sent.len() >= 7 && sent.subrange(0, 7) == toggle_bytes(),
{
    assert(sent.subrange(0, 7) =~= toggle_bytes());
}

} // verus!
