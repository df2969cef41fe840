use vstd::prelude::*;

verus! {

/// Adds five to `val`.
pub fn add5(val: i32) -> (res: i32)
    requires
        val + 5 <= i32::MAX,
    ensures
        res == val + 5,
{
    val + 5
}

/// The callback registered under the name `add10`; it adds 210 to `val`.
pub fn add10(val: i32) -> (res: i32)
    requires
        val + 210 <= i32::MAX,
    ensures
        res == val + 210,
{
    val + 210
}

/// The replacement body installed over the game's frame counter: it always reports 69.
pub fn wtf() -> (res: i32)
    ensures
        res == 69,
{
    69
}

/// One step of the client's routine once it is injected; the program that
/// hosts the client performs it through JNI.
#[derive(Debug, Clone, Copy, PartialEq, Eq, Structural)]
pub enum ClientAction {
    /// Print the greeting on the game's console.
    Greet,
    /// Look up the game, its renderer, camera and player, and hurt the player.
    HurtPlayer,
    /// Swing the player's off hand.
    SwingOffHand,
    /// Allow the player to fly.
    AllowFlying,
    /// Make the player fly.
    StartFlying,
    /// Print the camera's pitch, the player's last yaw and whether the game is paused.
    PrintStatus,
    /// Sleep for `millis` milliseconds.
    Pause { millis: u64 },
    /// Detach from the JVM and unload the client.
    Detach,
}

/// How many rounds of flying the client runs.
pub const FLY_ROUNDS: u32 = 100;

/// How many steps one round of flying takes.
pub const ROUND_STEPS: u32 = 5;

/// How long the client pauses after each round, in milliseconds.
pub const ROUND_PAUSE_MILLIS: u64 = 50;

/// The `k`-th step of a round of flying.
pub open spec fn round_action(k: int) -> ClientAction {
    if k == 0 {
        ClientAction::SwingOffHand
    } else if k == 1 {
        ClientAction::AllowFlying
    } else if k == 2 {
        ClientAction::StartFlying
    } else if k == 3 {
        ClientAction::PrintStatus
    } else {
        ClientAction::Pause { millis: ROUND_PAUSE_MILLIS as u64 }
    }
}

/// The step after which the rounds of flying end.
pub open spec fn rounds_end() -> int {
    2 + FLY_ROUNDS * ROUND_STEPS
}

/// The client's routine: greet, hurt the player, then `FLY_ROUNDS` rounds of
/// swinging the off hand, allowing and starting flight, printing the status
/// and pausing, then detach; nothing after that.
pub open spec fn client_action_spec(step: nat) -> Option<ClientAction> {
    if step == 0 {
        Some(ClientAction::Greet)
    } else if step == 1 {
        Some(ClientAction::HurtPlayer)
    } else if step < rounds_end() {
        Some(round_action((step - 2) % (ROUND_STEPS as int)))
    } else if step == rounds_end() {
        Some(ClientAction::Detach)
    } else {
        None
    }
}

/// What the client does at step `step` of its routine (counting from 0);
/// `None` once it has detached.
pub fn client_next(step: u32) -> (res: Option<ClientAction>)
    ensures
        res == client_action_spec(step as nat),
{
    if step == 0 {
        Some(ClientAction::Greet)
    } else if step == 1 {
        Some(ClientAction::HurtPlayer)
    } else if step < 2 + FLY_ROUNDS * ROUND_STEPS {
        let k = (step - 2) % ROUND_STEPS;
        if k == 0 {
            Some(ClientAction::SwingOffHand)
        } else if k == 1 {
            Some(ClientAction::AllowFlying)
        } else if k == 2 {
            Some(ClientAction::StartFlying)
        } else if k == 3 {
            Some(ClientAction::PrintStatus)
        } else {
            Some(ClientAction::Pause { millis: ROUND_PAUSE_MILLIS })
        }
    } else if step == 2 + FLY_ROUNDS * ROUND_STEPS {
        Some(ClientAction::Detach)
    } else {
        None
    }
}

/// Law: round `r` of flying (counting from 0) takes steps `2 + 5r` to
/// `2 + 5r + 4`, which swing the off hand, allow flying, start flying, print
/// the status and pause for 50 ms, in that order; after the last round the
/// client detaches, and after that it does nothing.
pub proof fn lemma_fly_rounds(r: int, k: int, later: nat)
    requires
        0 <= r < FLY_ROUNDS,
        0 <= k < ROUND_STEPS,
        later > rounds_end(),
    ensures
        client_action_spec((2 + ROUND_STEPS * r + k) as nat) == Some(round_action(k)),
        client_action_spec(rounds_end() as nat) == Some(ClientAction::Detach),
        client_action_spec(later) is None,
{
    assert((ROUND_STEPS * r + k) % (ROUND_STEPS as int) == k) by (nonlinear_arith)
        requires
            0 <= k < ROUND_STEPS,
            0 <= r,
    ;
    assert(2 + ROUND_STEPS * r + k < rounds_end()) by (nonlinear_arith)
        requires
            0 <= r < FLY_ROUNDS,
            0 <= k < ROUND_STEPS,
    ;
}

} // verus!
