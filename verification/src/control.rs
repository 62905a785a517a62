//! The on-board LED as the serial port drives it: the commands that arrive,
//! the state they move the LED to, and the reply that reports it.

use vstd::prelude::*;

verus! {

/// What a command asks of the on-board LED.
#[derive(Clone, Copy, Debug, PartialEq, Eq, Structural)]
pub enum LedAction {
    ON,
    OFF,
    TOGGLE,
}

/// Whether the on-board LED is lit.
#[derive(Clone, Copy, Debug, PartialEq, Eq, Structural)]
pub enum LedStatus {
    ON,
    OFF,
}

/// `LED_ON`
pub open spec fn on_message() -> Seq<u8> {
    seq![76u8, 69, 68, 95, 79, 78]
}

/// `LED_OFF`
pub open spec fn off_message() -> Seq<u8> {
    seq![76u8, 69, 68, 95, 79, 70, 70]
}

/// `LED_TOGGLE`
pub open spec fn toggle_message() -> Seq<u8> {
    seq![76u8, 69, 68, 95, 84, 79, 71, 71, 76, 69]
}

/// `LED_IS_ON` and a line feed.
pub open spec fn is_on_reply() -> Seq<u8> {
    seq![76u8, 69, 68, 95, 73, 83, 95, 79, 78, 10]
}

/// `LED_IS_OFF` and a line feed.
pub open spec fn is_off_reply() -> Seq<u8> {
    seq![76u8, 69, 68, 95, 73, 83, 95, 79, 70, 70, 10]
}

/// `data` begins with `prefix`.
pub open spec fn starts_with(data: Seq<u8>, prefix: Seq<u8>) -> bool {
    prefix.len() <= data.len() && data.take(prefix.len() as int) == prefix
}

/// The command that the received bytes begin with, tried in the order
/// `LED_ON`, `LED_OFF`, `LED_TOGGLE`; anything else is no command.
pub open spec fn spec_command(received: Seq<u8>) -> Option<LedAction> {
    if starts_with(received, on_message()) {
        Some(LedAction::ON)
    } else if starts_with(received, off_message()) {
        Some(LedAction::OFF)
    } else if starts_with(received, toggle_message()) {
        Some(LedAction::TOGGLE)
    } else {
        None
    }
}

/// The state of the LED after an action.
pub open spec fn spec_next_status(status: LedStatus, action: LedAction) -> LedStatus {
    match action {
        LedAction::OFF => LedStatus::OFF,
        LedAction::ON => LedStatus::ON,
        LedAction::TOGGLE => if status == LedStatus::ON { LedStatus::OFF } else { LedStatus::ON },
    }
}

/// The reply that reports a state of the LED.
pub open spec fn spec_reply(status: LedStatus) -> Seq<u8> {
    match status {
        LedStatus::ON => is_on_reply(),
        LedStatus::OFF => is_off_reply(),
    }
}

/// Toggling changes the state, and toggling twice gives it back.
pub proof fn lemma_toggle_twice(status: LedStatus)
    ensures
        spec_next_status(status, LedAction::TOGGLE) != status,
        spec_next_status(spec_next_status(status, LedAction::TOGGLE), LedAction::TOGGLE) == status,
{
}

/// `ON` and `OFF` set the state whatever it was, so repeating them changes nothing.
pub proof fn lemma_set_is_idempotent(status: LedStatus, action: LedAction)
    requires
        action != LedAction::TOGGLE,
    ensures
        spec_next_status(spec_next_status(status, action), action) == spec_next_status(status, action),
        spec_next_status(status, action) == (if action == LedAction::ON { LedStatus::ON } else { LedStatus::OFF }),
{
}

/// Each message, whatever follows it, is read as its own command.
pub proof fn lemma_messages_are_commands(rest: Seq<u8>)
    ensures
        spec_command(on_message() + rest) == Some(LedAction::ON),
        spec_command(off_message() + rest) == Some(LedAction::OFF),
        spec_command(toggle_message() + rest) == Some(LedAction::TOGGLE),
{
    assert((on_message() + rest).take(6) =~= on_message());
    let off = off_message() + rest;
    assert(off.take(7) =~= off_message());
    assert(off.take(6)[5] != on_message()[5]);
    let toggle = toggle_message() + rest;
    assert(toggle.take(10) =~= toggle_message());
    assert(toggle.take(6)[4] != on_message()[4]);
    assert(toggle.take(7)[4] != off_message()[4]);
}

/// Fewer bytes than the shortest message are no command.
pub proof fn lemma_short_input_is_no_command(received: Seq<u8>)
    requires
        received.len() < 6,
    ensures
        spec_command(received) is None,
{
}

/// The two replies differ, so the reply tells the state.
pub proof fn lemma_replies_differ()
    ensures
        spec_reply(LedStatus::ON) != spec_reply(LedStatus::OFF),
{
    assert(spec_reply(LedStatus::ON).len() != spec_reply(LedStatus::OFF).len());
}

/// The first `count` bytes of `data` begin with `prefix`.
fn has_prefix(data: &[u8], count: usize, prefix: &[u8]) -> (r: bool)
    requires
        count <= data@.len(),
    ensures
        r == starts_with(data@.take(count as int), prefix@),
{
    if count < prefix.len() {
        return false;
    }
    let mut i: usize = 0;
    while i < prefix.len()
        invariant
            i <= prefix@.len() <= count <= data@.len(),
            forall|j: int| 0 <= j < i ==> data@[j] == prefix@[j],
        decreases prefix@.len() - i,
    {
        if data[i] != prefix[i] {
            assert(data@.take(count as int).take(prefix@.len() as int)[i as int] != prefix@[i as int]);
            return false;
        }
        i = i + 1;
    }
    assert(data@.take(count as int).take(prefix@.len() as int) =~= prefix@);
    true
}

/// The command at the start of the `count` bytes that the serial port
/// delivered into `buf`.
pub fn parse_command(buf: &[u8], count: usize) -> (r: Option<LedAction>)
    requires
        count <= buf@.len(),
    ensures
        r == spec_command(buf@.take(count as int)),
{
    let on: Vec<u8> = vec![76u8, 69, 68, 95, 79, 78];
    let off: Vec<u8> = vec![76u8, 69, 68, 95, 79, 70, 70];
    let toggle: Vec<u8> = vec![76u8, 69, 68, 95, 84, 79, 71, 71, 76, 69];
    assert(on@ =~= on_message());
    assert(off@ =~= off_message());
    assert(toggle@ =~= toggle_message());
    if has_prefix(buf, count, on.as_slice()) {
        Some(LedAction::ON)
    } else if has_prefix(buf, count, off.as_slice()) {
        Some(LedAction::OFF)
    } else if has_prefix(buf, count, toggle.as_slice()) {
        Some(LedAction::TOGGLE)
    } else {
        None
    }
}

/// The state of the LED after `action`, from `status`.
pub fn next_status(status: LedStatus, action: LedAction) -> (r: LedStatus)
    ensures
        r == spec_next_status(status, action),
{
    match action {
        LedAction::OFF => LedStatus::OFF,
        LedAction::ON => LedStatus::ON,
        LedAction::TOGGLE => match status {
            LedStatus::ON => LedStatus::OFF,
            LedStatus::OFF => LedStatus::ON,
        },
    }
}

/// The bytes written back over the serial port to report `status`.
pub fn status_reply(status: LedStatus) -> (r: Vec<u8>)
    ensures
        r@ == spec_reply(status),
{
    match status {
        LedStatus::ON => {
            let r: Vec<u8> = vec![76u8, 69, 68, 95, 73, 83, 95, 79, 78, 10];
            assert(r@ =~= is_on_reply());
            r
        },
        LedStatus::OFF => {
            let r: Vec<u8> = vec![76u8, 69, 68, 95, 73, 83, 95, 79, 70, 70, 10];
            assert(r@ =~= is_off_reply());
            r
        },
    }
}

} // verus!
